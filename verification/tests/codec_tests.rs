use sup_rs::controller::command::{CodecError, Command, Request, Response};

fn all_commands() -> Vec<Command> {
    vec![
        Command::Start,
        Command::Stop,
        Command::Restart,
        Command::Kill,
        Command::Reload,
        Command::Status,
        Command::Exit,
        Command::Unknown,
    ]
}

#[test]
fn command_round_trip_all_variants() {
    for c in all_commands() {
        let bytes = c.marshal();
        assert_eq!(bytes.len(), 1);
        assert_eq!(Command::unmarshal(&bytes), c);
    }
}

#[test]
fn command_codes_are_fixed() {
    let expected: Vec<u8> = vec![0, 1, 2, 3, 4, 5, 6, 7];
    for (c, code) in all_commands().into_iter().zip(expected) {
        assert_eq!(c.marshal(), vec![code]);
    }
}

#[test]
fn request_round_trip() {
    let req = Request::new(Command::Reload);
    let bytes = req.marshal();
    assert_eq!(Request::unmarshal(&bytes).cmd, Command::Reload);
}

#[test]
fn empty_request_decodes_to_unknown() {
    assert_eq!(Command::unmarshal(&Vec::new()), Command::Unknown);
}

#[test]
fn multi_byte_request_decodes_to_unknown() {
    assert_eq!(Command::unmarshal(&vec![0, 1]), Command::Unknown);
    assert_eq!(Command::unmarshal(&vec![5, 5, 5]), Command::Unknown);
}

#[test]
fn out_of_range_code_decodes_to_unknown() {
    assert_eq!(Command::unmarshal(&vec![7]), Command::Unknown);
    assert_eq!(Command::unmarshal(&vec![8]), Command::Unknown);
    assert_eq!(Command::unmarshal(&vec![255]), Command::Unknown);
}

#[test]
fn response_round_trip_with_pid() {
    let resp = Response::new("start success".to_string(), Some(4321));
    let bytes = resp.marshal();
    let back = Response::unmarshal(&bytes).unwrap();
    assert_eq!(back.message, "start success");
    assert_eq!(back.sup_pid, Some(4321));
}

#[test]
fn response_round_trip_without_pid() {
    let resp = Response::new("stop success".to_string(), None);
    let back = Response::unmarshal(&resp.marshal()).unwrap();
    assert_eq!(back.message, "stop success");
    assert_eq!(back.sup_pid, None);
}

#[test]
fn response_pid_zero_comes_back_as_none() {
    // The documented wire quirk: zero on the wire means "no pid".
    let resp = Response::new("x".to_string(), Some(0));
    let back = Response::unmarshal(&resp.marshal()).unwrap();
    assert_eq!(back.sup_pid, None);
}

#[test]
fn response_round_trip_non_ascii_message() {
    let resp = Response::new("démarré ✓".to_string(), Some(7));
    let back = Response::unmarshal(&resp.marshal()).unwrap();
    assert_eq!(back.message, "démarré ✓");
    assert_eq!(back.sup_pid, Some(7));
}

#[test]
fn pid_prefix_is_big_endian() {
    let resp = Response::new(String::new(), Some(0x01020304));
    assert_eq!(resp.marshal_sup_pid(), vec![1, 2, 3, 4]);
    let none = Response::new(String::new(), None);
    assert_eq!(none.marshal_sup_pid(), vec![0, 0, 0, 0]);
}

#[test]
fn short_response_is_invalid_encoding() {
    assert_eq!(
        Response::unmarshal(&vec![0, 0, 0]),
        Err(CodecError::InvalidEncoding)
    );
    assert_eq!(Response::unmarshal(&Vec::new()), Err(CodecError::InvalidEncoding));
}

#[test]
fn bad_utf8_suffix_is_invalid_utf8() {
    assert_eq!(
        Response::unmarshal(&vec![0, 0, 0, 1, 0xFF, 0xFE]),
        Err(CodecError::InvalidUtf8)
    );
}

#[test]
fn unmarshal_components() {
    assert_eq!(Response::unmarshal_sup_pid(&vec![0, 0, 1, 0]), Ok(Some(256)));
    assert_eq!(Response::unmarshal_sup_pid(&vec![0, 0, 0, 0]), Ok(None));
    assert_eq!(
        Response::unmarshal_sup_pid(&vec![1, 2]),
        Err(CodecError::InvalidEncoding)
    );
    assert_eq!(Response::unmarshal_msg(vec![104, 105]), Ok("hi".to_string()));
    assert_eq!(Response::unmarshal_msg(vec![0xFF]), Err(CodecError::InvalidUtf8));
}

#[test]
fn exact_wire_frame_decodes() {
    // 4-byte big-endian pid 5, then "hello" — sliced from one buffer.
    let mut frame = vec![0u8, 0, 0, 5];
    frame.extend_from_slice(b"hello");
    let back = Response::unmarshal(&frame).unwrap();
    assert_eq!(back.message, "hello");
    assert_eq!(back.sup_pid, Some(5));
}

#[test]
fn response_text_rendering() {
    assert_eq!(
        Response::new("ok".to_string(), Some(12)).to_text(),
        "ok, pid is 12"
    );
    assert_eq!(Response::new("ok".to_string(), None).to_text(), "ok");
    assert_eq!(
        Response::new("done".to_string(), Some(70000)).to_text(),
        "done, pid is 70000"
    );
}

#[test]
fn command_names_map_one_to_one() {
    assert_eq!(Command::from_name("start"), Some(Command::Start));
    assert_eq!(Command::from_name("stop"), Some(Command::Stop));
    assert_eq!(Command::from_name("restart"), Some(Command::Restart));
    assert_eq!(Command::from_name("kill"), Some(Command::Kill));
    assert_eq!(Command::from_name("reload"), Some(Command::Reload));
    assert_eq!(Command::from_name("status"), Some(Command::Status));
    assert_eq!(Command::from_name("exit"), Some(Command::Exit));
    assert_eq!(Command::from_name("unknown"), None);
    assert_eq!(Command::from_name(""), None);
    assert_eq!(Command::from_name("Start"), None);
}

#[test]
fn empty_message_round_trips() {
    let resp = Response::new(String::new(), Some(1));
    let back = Response::unmarshal(&resp.marshal()).unwrap();
    assert_eq!(back.message, "");
    assert_eq!(back.sup_pid, Some(1));
}
