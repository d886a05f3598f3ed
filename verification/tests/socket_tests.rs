use mysql_udf_http::socket::{
    fd_announcements, forwards_message, greeting, recv_outcome, relay_step, send_outcome, ws_setup_info, IoOutcome,
    RelayStep, RELAY_CHUNK,
};

#[test]
fn recv_return_values() {
    assert_eq!(recv_outcome(-1, 10), IoOutcome::OsError);
    assert_eq!(recv_outcome(0, 10), IoOutcome::UnexpectedEof);
    assert_eq!(recv_outcome(0, 0), IoOutcome::Done(0));
    assert_eq!(recv_outcome(7, 10), IoOutcome::Done(7));
}

#[test]
fn send_return_values() {
    assert_eq!(send_outcome(-1, 3), IoOutcome::OsError);
    assert_eq!(send_outcome(0, 3), IoOutcome::WriteZero);
    assert_eq!(send_outcome(0, 0), IoOutcome::Done(0));
    assert_eq!(send_outcome(3, 3), IoOutcome::Done(3));
}

#[test]
fn relay_stops_on_end_or_error() {
    assert_eq!(relay_step(IoOutcome::Done(0), vec![0; RELAY_CHUNK]), RelayStep::Stop);
    assert_eq!(relay_step(IoOutcome::OsError, vec![0; RELAY_CHUNK]), RelayStep::Stop);
    assert_eq!(relay_step(IoOutcome::UnexpectedEof, vec![0; RELAY_CHUNK]), RelayStep::Stop);
}

#[test]
fn relay_forwards_received_prefix() {
    let mut buf = vec![0u8; RELAY_CHUNK];
    buf[..5].copy_from_slice(b"hello");
    assert_eq!(relay_step(IoOutcome::Done(5), buf), RelayStep::Forward("hello".to_string()));
}

#[test]
fn relay_forwards_empty_text_for_invalid_utf8() {
    let mut buf = vec![0u8; RELAY_CHUNK];
    buf[0] = 0xff;
    assert_eq!(relay_step(IoOutcome::Done(1), buf), RelayStep::Forward(String::new()));
}

#[test]
fn relay_count_beyond_buffer_keeps_whole_buffer() {
    assert_eq!(relay_step(IoOutcome::Done(10), b"ab".to_vec()), RelayStep::Forward("ab".to_string()));
}

#[test]
fn only_utf8_messages_are_forwarded() {
    assert!(forwards_message(b"{\"a\":1}"));
    assert!(!forwards_message(&[0xc3, 0x28]));
}

#[test]
fn announcements_count_from_three() {
    let a = fd_announcements("job-1", 6);
    assert_eq!(a, vec!["job-1,3".to_string(), "job-1,4".to_string(), "job-1,5".to_string()]);
    assert!(fd_announcements("x", 3).is_empty());
    assert!(fd_announcements("x", -1).is_empty());
}

#[test]
fn announcements_read_back() {
    for (k, a) in fd_announcements("id,with,commas", 15).iter().enumerate() {
        let (id, fd) = a.rsplit_once(',').unwrap();
        assert_eq!(id, "id,with,commas");
        assert_eq!(fd.parse::<usize>().unwrap(), k + 3);
    }
}

#[test]
fn ws_setup_reply() {
    assert_eq!(ws_setup_info(12, 13), "setup ws fd info=12,13");
    assert_eq!(ws_setup_info(-1, 0), "setup ws fd info=-1,0");
}

#[test]
fn greetings_are_numbered() {
    assert_eq!(greeting(1), "Hello, World! #1");
    assert_eq!(greeting(10), "Hello, World! #10");
}
