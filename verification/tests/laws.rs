use livestream_server::hls::fmp4::codec::ensure_av1_obu_size_fields;
use livestream_server::hls::fmp4::{AudioCodec, Fmp4Muxer};
use livestream_server::hls::mpegts::{MpegTsMuxer, StreamType};

#[test]
fn aac_samples_stay_on_frame_grid() {
    let mut muxer = Fmp4Muxer::new();
    muxer.set_audio_codec(AudioCodec::Aac);
    muxer.set_audio_config(vec![0x12, 0x10]);
    for (i, ts) in [0u64, 23, 46, 70, 93].iter().enumerate() {
        muxer.add_audio_sample(vec![0xAA, i as u8].into(), *ts);
    }
    let dts: Vec<u64> = muxer.audio_samples().iter().map(|s| s.dts).collect();
    assert_eq!(dts, vec![0, 1024, 2048, 3072, 4096]);
    muxer.flush_combined_fragment().unwrap();
    // The frame clock carries over to the next fragment.
    muxer.add_audio_sample(vec![0xAB].into(), 200);
    assert_eq!(muxer.audio_samples()[0].dts, 5 * 1024);
}

#[test]
fn opus_samples_advance_by_960() {
    let mut muxer = Fmp4Muxer::new();
    muxer.set_audio_codec(AudioCodec::Opus);
    muxer.add_audio_sample(vec![0xFC, 0x00].into(), 0);
    muxer.add_audio_sample(vec![0xFC, 0x01].into(), 20);
    assert_eq!(muxer.audio_samples()[1].dts, 960);
}

#[test]
fn ts_packets_are_188_bytes_with_sync_and_counter() {
    let mut ts = MpegTsMuxer::new();
    ts.set_video_codec(StreamType::H265);
    let frame = vec![0x5Au8; 1000];
    let packets = ts.add_video_nal(&frame, 9000, 9000);
    assert!(packets.len() >= 6);
    for (i, p) in packets.iter().enumerate() {
        assert_eq!(p.len(), 188);
        assert_eq!(p[0], 0x47);
        assert_eq!(p[3] & 0x0F, (i % 16) as u8);
    }
    let more = ts.add_video_nal(&frame, 12000, 12000);
    assert_eq!(more[0][3] & 0x0F, (packets.len() % 16) as u8);
    let audio = ts.add_audio_aac(&[0x21u8; 300], 9000);
    for (i, p) in audio.iter().enumerate() {
        assert_eq!(p.len(), 188);
        assert_eq!(p[0], 0x47);
        assert_eq!(p[3] & 0x0F, (i % 16) as u8);
    }
}

#[test]
fn table_packets_are_188_bytes() {
    let mut ts = MpegTsMuxer::new();
    ts.set_video_codec(StreamType::AV1);
    ts.set_audio_codec(StreamType::AAC);
    for p in ts.initial_packets() {
        assert_eq!(p.len(), 188);
        assert_eq!(p[0], 0x47);
    }
}

#[test]
fn obu_size_field_reads_back_as_payload_length() {
    // A sequence header OBU (type 1) without a size field and 200 payload bytes.
    let mut obu = vec![0x08u8];
    obu.extend_from_slice(&[0x11u8; 200]);
    let out = ensure_av1_obu_size_fields(&obu);
    assert_eq!(out[0], 0x0A);
    assert_eq!(&out[1..3], &[0xC8, 0x01]);
    let size = (out[1] & 0x7F) as usize | (((out[2] & 0x7F) as usize) << 7);
    assert_eq!(size, 200);
    assert_eq!(out.len(), 3 + 200);
    assert_eq!(&out[3..], &obu[1..]);
}

#[test]
fn bit_reversal_is_an_involution() {
    for x in [0u32, 1, 0x8000_0000, 0x1234_5678, 0xDEAD_BEEF, u32::MAX] {
        let r = Fmp4Muxer::reverse_bits_32(x);
        assert_eq!(r, x.reverse_bits());
        assert_eq!(Fmp4Muxer::reverse_bits_32(r), x);
    }
}
