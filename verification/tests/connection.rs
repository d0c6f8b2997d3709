use basex::decoder::{Decoder, Shape};
use basex::{Authenticated, ClientError, Connection};

/// The stream that the server's bytes come from, closed by a zero byte.
fn stream_of(response: &[u8]) -> Vec<u8> {
    let mut stream = response.to_vec();
    stream.push(0);
    stream
}

/// Reads a delimited string from the front of `stream`, byte by byte.
fn read_string(stream: &mut &[u8]) -> Vec<u8> {
    let mut decoder = Decoder::new(Shape::Text);
    let mut out = Vec::new();
    while !decoder.is_complete() {
        let (byte, rest) = stream.split_first().expect("Unexpected end of stream.");
        assert_eq!(1, decoder.feed(&[*byte], &mut out));
        *stream = rest;
    }
    assert!(out.is_empty());
    decoder.into_info()
}

fn get_response(connection: &Connection<Authenticated>, stream: &mut &[u8]) -> Result<String, ClientError> {
    let info = connection.read_string(read_string(stream))?;
    let (status, rest) = stream.split_first().expect("Unexpected end of stream.");
    *stream = rest;
    connection.get_response(info.into_bytes(), *status)
}

fn authenticated() -> Connection<Authenticated> {
    Connection::new().authenticate(0).unwrap()
}

#[test]
fn connection_test_formats_as_debug() {
    let _ = format!("{:?}", authenticated());
}

#[test]
fn connection_test_clones() {
    let _ = authenticated().clone();
    let _ = authenticated().try_clone();
}

#[test]
fn connection_test_connection_sends_command_with_arguments() {
    let connection = authenticated();

    let argument_foo = "foo";
    let argument_bar = "bar";

    let mut buffer = Vec::new();
    connection.send_cmd(1, &mut buffer);
    connection.send_arg(argument_foo.as_bytes(), &mut buffer);
    connection.send_arg(argument_bar.as_bytes(), &mut buffer);
    let actual_buffer = String::from_utf8(buffer).unwrap();
    let expected_buffer = "\u{1}foo\u{0}bar\u{0}".to_owned();

    assert_eq!(expected_buffer, actual_buffer);
}

#[test]
fn connection_test_connection_gets_response() {
    let expected_response = "test_response";
    let stream = stream_of(format!("{}\0", expected_response).as_bytes());
    let actual_response = get_response(&authenticated(), &mut &stream[..]).unwrap();

    assert_eq!(expected_response, actual_response);
}

#[test]
fn connection_test_connection_gets_response_on_failed_command() {
    let stream = stream_of("test_error\0\u{1}".as_bytes());
    let actual_error = get_response(&authenticated(), &mut &stream[..]).expect_err("Operation must fail");

    assert!(matches!(actual_error, ClientError::CommandFailed { message } if message == "test_error"));
}

#[test]
fn connection_test_connection_fails_to_get_response_with_malformed_utf_8_string() {
    let non_utf8_sequence = &[0xa0 as u8, 0xa1];
    let stream = stream_of(non_utf8_sequence);
    let actual_error = get_response(&authenticated(), &mut &stream[..]).expect_err("Operation must fail");

    assert!(matches!(actual_error, ClientError::Utf8Parse(_)));
}

#[test]
fn connection_test_authentication_succeeds_with_correct_auth_string() {
    let expected_auth_string = "admin\0af13b20af0e0b0e3517a406c42622d3d\0";
    let stream = stream_of("BaseX:19501915960728\0".as_bytes());
    let mut stream = &stream[..];
    let connection = Connection::new();

    let challenge = connection.read_string(read_string(&mut stream)).unwrap();
    let actual_auth_string = connection.auth_reply(&challenge, "admin", "admin");
    let (control, _) = stream.split_first().unwrap();
    let connection = connection.authenticate(*control);

    assert!(connection.is_ok());
    assert_eq!(expected_auth_string, actual_auth_string);
}

#[test]
fn connection_test_authentication_fails_on_error_response() {
    let stream = stream_of("BaseX:19501915960728\0\u{1}".as_bytes());
    let mut stream = &stream[..];
    let connection = Connection::new();

    let challenge = connection.read_string(read_string(&mut stream)).unwrap();
    let _ = connection.auth_reply(&challenge, "admin", "admin");
    let (control, _) = stream.split_first().unwrap();
    let actual_error = connection.authenticate(*control).err().expect("Operation must fail");

    assert!(matches!(actual_error, ClientError::Auth));
}

#[test]
fn test_authentication_takes_timestamp_up_to_second_colon() {
    let connection = Connection::new();
    let plain = connection.auth_reply("BaseX:19501915960728", "admin", "admin");
    let longer = connection.auth_reply("BaseX:19501915960728:ignored", "admin", "admin");

    assert_eq!(plain, longer);
}

#[test]
fn test_authentication_depends_on_password_and_timestamp() {
    let connection = Connection::new();
    let reply = connection.auth_reply("BaseX:19501915960728", "admin", "admin");

    assert_ne!(reply, connection.auth_reply("BaseX:19501915960728", "admin", "other"));
    assert_ne!(reply, connection.auth_reply("BaseX:19501915960729", "admin", "admin"));
    assert_ne!(reply, connection.auth_reply("Base:19501915960728", "admin", "admin"));
}

#[test]
fn test_hexadecimal_digits_are_lower_case_and_two_per_byte() {
    let mut hex = String::new();
    basex::connection::push_hex(&[0x00, 0x0f, 0xa0, 0xff, 0x9c], &mut hex);

    assert_eq!("000fa0ff9c", hex);
}

#[test]
fn test_argument_with_special_bytes_is_escaped() {
    let mut buffer = Vec::new();
    authenticated().send_arg(&[1, 0, 0xFF, 2], &mut buffer);

    assert_eq!(vec![1u8, 0xFF, 0, 0xFF, 0xFF, 2, 0], buffer);
}

#[test]
fn test_skipped_argument_is_a_bare_delimiter() {
    let mut buffer = vec![7u8];
    authenticated().skip_arg(&mut buffer);

    assert_eq!(vec![7u8, 0], buffer);
}

#[test]
fn test_status_byte_is_ok_only_when_zero() {
    let connection = authenticated();

    assert!(connection.is_ok(0));
    assert!(!connection.is_ok(1));
    assert!(!connection.is_ok(2));
}

#[test]
fn test_response_with_status_above_one_is_a_failed_command() {
    let actual_error = authenticated().get_response(b"info".to_vec(), 2).expect_err("Operation must fail");

    assert!(matches!(actual_error, ClientError::CommandFailed { message } if message == "info"));
}
