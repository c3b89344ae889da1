use livestream_server::hls::mpegts::{MpegTsMuxer, StreamType, SYNC_BYTE, TS_PACKET_SIZE, VIDEO_PID, AUDIO_PID};
#[test]
fn test_pat_packets() {
    let muxer = MpegTsMuxer::new();
    let pat = muxer.create_pat();
    assert!(pat.len() >= 188);
    assert_eq!(pat[0], SYNC_BYTE);

    let mut minus_sync = pat.clone();
    minus_sync.remove(0);
    assert!(!minus_sync.contains(&SYNC_BYTE));
}

#[test]
fn test_pmt_with_av1() {
    let mut muxer = MpegTsMuxer::new();
    muxer.set_video_codec(StreamType::AV1);
    muxer.set_audio_codec(StreamType::AAC);
    let pmt = muxer.create_pmt();
    assert!(pmt.len() >= 188);
    assert_eq!(pmt[0], SYNC_BYTE);

    // Parse the PMT section from the TS packet
    let afc = (pmt[3] >> 4) & 0x03;
    let mut payload_offset = 4;
    if afc == 3 || afc == 2 {
        payload_offset += pmt[4] as usize + 1;
    }
    let payload = &pmt[payload_offset..];
    let ptr = payload[0] as usize;
    // Section data starts after pointer_field
    let sec = &payload[1..];
    let table_id = sec[ptr];
    assert_eq!(table_id, 0x02, "PMT table_id should be 0x02");

    let section_length = (((sec[ptr + 1] & 0x0F) as usize) << 8) | (sec[ptr + 2] as usize);
    let _section_end = ptr + 3 + section_length;

    // PCR PID at bytes ptr+8..ptr+10 of section
    let pcr_pid = (((sec[ptr + 8] & 0x1F) as u16) << 8) | (sec[ptr + 9] as u16);
    assert_eq!(pcr_pid, VIDEO_PID, "PCR PID should be video PID");

    // program_info_length
    let program_info_len = (((sec[ptr + 10] & 0x0F) as usize) << 8) | (sec[ptr + 11] as usize);
    let mut idx = ptr + 12 + program_info_len;

    // First stream descriptor (video)
    let stream_type = sec[idx];
    assert_eq!(stream_type, StreamType::AV1.stream_type_id(), "Video stream_type should be AV1 (0x06)");
    let elem_pid = (((sec[idx + 1] & 0x1F) as u16) << 8) | (sec[idx + 2] as u16);
    assert_eq!(elem_pid, VIDEO_PID);
    let es_info_len = (((sec[idx + 3] & 0x0F) as usize) << 8) | (sec[idx + 4] as usize);
    assert_eq!(es_info_len, 6, "ES_info should contain 6-byte registration descriptor");
    assert_eq!(sec[idx + 5], 0x05, "Descriptor tag should be 0x05 (registration)");
    assert_eq!(sec[idx + 6], 4, "Descriptor length should be 4");
    assert_eq!(&sec[idx + 7..idx + 11], b"av01", "Registration should be 'av01'");

    idx += 5 + es_info_len;

    // Second stream descriptor (audio)
    let audio_stream_type = sec[idx];
    assert_eq!(audio_stream_type, StreamType::AAC.stream_type_id(), "Audio stream_type should be AAC (0x0F)");
    let audio_elem_pid = (((sec[idx + 1] & 0x1F) as u16) << 8) | (sec[idx + 2] as u16);
    assert_eq!(audio_elem_pid, AUDIO_PID);
}

#[test]
fn test_video_packets() {
    let mut muxer = MpegTsMuxer::new();
    muxer.set_video_codec(StreamType::H264);
    let data = vec![0x00, 0x00, 0x00, 0x01, 0x65, 0x88, 0x84];
    let packets = muxer.add_video_nal(&data, 0, 0);
    assert!(!packets.is_empty());
    for pkt in &packets {
        assert_eq!(pkt.len(), TS_PACKET_SIZE);
        assert_eq!(pkt[0], SYNC_BYTE);
    }
}

#[test]
fn test_audio_packets() {
    let mut muxer = MpegTsMuxer::new();
    let data = vec![0xAF, 0x01, 0x02, 0x03];
    let packets = muxer.add_audio_aac(&data, 0);
    assert!(!packets.is_empty());
    for pkt in &packets {
        assert_eq!(pkt.len(), TS_PACKET_SIZE);
        assert_eq!(pkt[0], SYNC_BYTE);
    }
}

#[test]
fn test_stream_type_registration() {
    assert!(StreamType::AV1.needs_registration_descriptor());
    assert!(!StreamType::H264.needs_registration_descriptor());
    assert_eq!(StreamType::AV1.registration_fourcc(), Some(b"av01"));
    assert_eq!(StreamType::AV1.stream_type_id(), 0x06);
    assert_eq!(StreamType::H264.stream_type_id(), 0x1B);
}
