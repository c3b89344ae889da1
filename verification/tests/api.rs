use livestream_server::api::{closest_thumbnail_width, extract_host};
use livestream_server::recording::parse_stream_key_from_filename;
#[test]
fn test_closest_thumbnail_width_exact_match() {
    let sizes = vec![320, 480, 640];
    assert_eq!(closest_thumbnail_width(Some(480), &sizes), 480);
}

#[test]
fn test_closest_thumbnail_width_lower() {
    let sizes = vec![320, 480];
    assert_eq!(closest_thumbnail_width(Some(640), &sizes), 480);
}

#[test]
fn test_closest_thumbnail_width_below_all() {
    let sizes = vec![320, 480];
    assert_eq!(closest_thumbnail_width(Some(200), &sizes), 320);
}

#[test]
fn test_closest_thumbnail_width_none() {
    let sizes = vec![320, 480];
    assert_eq!(closest_thumbnail_width(None, &sizes), 320);
}

#[test]
fn test_closest_thumbnail_width_empty_sizes() {
    assert_eq!(closest_thumbnail_width(Some(200), &[]), 480);
    assert_eq!(closest_thumbnail_width(None, &[]), 480);
}

#[test]
fn test_parse_stream_key_from_filename() {
    assert_eq!(
        parse_stream_key_from_filename("mystream_20260525_143000.mp4"),
        "mystream"
    );
    assert_eq!(
        parse_stream_key_from_filename("my_stream_key_20260525_143000.mp4"),
        "my_stream_key"
    );
    assert_eq!(
        parse_stream_key_from_filename("key_20260525_143000.mp4"),
        "key"
    );
    assert_eq!(
        parse_stream_key_from_filename("invalid.mp4"),
        "invalid"
    );
}
