use mysql_udf_http::socks5::{
    auth_answer, check_invitation, command_of, fill_step, ip_response, ipv4_address, is_connect, pipe_chunk,
    read_port, FillStep, Socks5Error, CONNECT, VERSION,
};

#[test]
fn invitation_needs_version_five() {
    assert_eq!(check_invitation([5, 1]), Ok(()));
    assert_eq!(check_invitation([4, 1]), Err(Socks5Error::InvalidVersion));
}

#[test]
fn auth_answer_is_no_authentication() {
    assert_eq!(auth_answer(), [VERSION, 0]);
}

#[test]
fn command_is_last_header_byte() {
    assert_eq!(command_of([5, 0, 0, 1]), 1);
    assert!(is_connect(command_of([5, 9, 9, CONNECT])));
    assert!(!is_connect(2));
}

#[test]
fn port_is_big_endian() {
    assert_eq!(read_port([0x1f, 0x90]), 8080);
    assert_eq!(read_port([0, 80]), 80);
    assert_eq!(read_port([0xff, 0xff]), 65535);
}

#[test]
fn response_echoes_address_and_port() {
    let r = ip_response([192, 168, 1, 20], 8080);
    assert_eq!(r, [5, 0, 0, 1, 192, 168, 1, 20, 0x1f, 0x90]);
    assert_eq!(read_port([r[8], r[9]]), 8080);
}

#[test]
fn address_text_is_dotted_decimal() {
    assert_eq!(ipv4_address([127, 0, 0, 1]), "127.0.0.1");
    assert_eq!(ipv4_address([255, 10, 0, 99]), "255.10.0.99");
}

#[test]
fn fill_steps() {
    assert_eq!(fill_step(0, 4, 0), FillStep::Finished(0));
    assert_eq!(fill_step(0, 4, 4), FillStep::Finished(4));
    assert_eq!(fill_step(1, 4, 2), FillStep::Continue(3));
    assert_eq!(fill_step(3, 4, 1), FillStep::Finished(4));
}

#[test]
fn pipe_stops_on_nothing() {
    assert_eq!(pipe_chunk(Some(10)), Some(10));
    assert_eq!(pipe_chunk(Some(0)), None);
    assert_eq!(pipe_chunk(None), None);
}
