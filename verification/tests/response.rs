use rqotdd::response::{datagram_response, format_datagram, format_stream, stream_response, LINE_FEED, NUL};
use rqotdd::store::load_database;

#[test]
fn stream_frame_of_hello() {
    assert_eq!(format_stream("hello"), b"\nhello\n\n".to_vec());
}

#[test]
fn datagram_frame_of_hello() {
    assert_eq!(format_datagram("hello"), b"\nhello\n\n\x00".to_vec());
}

#[test]
fn the_two_frames_differ_by_the_final_nul() {
    let stream = format_stream("hello");
    let datagram = format_datagram("hello");
    assert_ne!(stream, datagram);
    assert_eq!(datagram.len(), stream.len() + 1);
    assert_eq!(&datagram[..stream.len()], &stream[..]);
    assert_eq!(datagram[stream.len()], NUL);
}

#[test]
fn frames_of_the_empty_quote() {
    assert_eq!(format_stream(""), vec![LINE_FEED, LINE_FEED, LINE_FEED]);
    assert_eq!(format_datagram(""), vec![LINE_FEED, LINE_FEED, LINE_FEED, NUL]);
}

#[test]
fn frames_carry_utf8() {
    assert_eq!(format_stream("caf\u{e9}"), b"\ncaf\xc3\xa9\n\n".to_vec());
    assert_eq!(format_datagram("\u{20ac}"), b"\n\xe2\x82\xac\n\n\x00".to_vec());
}

#[test]
fn frames_keep_inner_line_feeds() {
    assert_eq!(format_stream("a\nb"), b"\na\nb\n\n".to_vec());
}

#[test]
fn a_stream_response_frames_one_entry() {
    let store = load_database("alpha|beta|gamma", "|").unwrap();
    for _ in 0..200 {
        let response = stream_response(&store);
        assert!(response.starts_with(b"\n"));
        assert!(response.ends_with(b"\n\n"));
        assert!(store.quotes().iter().any(|quote| format_stream(quote) == response));
    }
}

#[test]
fn a_datagram_response_frames_one_entry() {
    let store = load_database("alpha|beta|gamma", "|").unwrap();
    for _ in 0..200 {
        let response = datagram_response(&store);
        assert!(response.ends_with(b"\n\n\x00"));
        assert!(store.quotes().iter().any(|quote| format_datagram(quote) == response));
    }
}
