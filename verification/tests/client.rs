use basex::client::Command;
use basex::decoder::{Decoder, Shape};
use basex::{Authenticated, Client, ClientError, Connection};

/// The stream that the server's bytes come from, closed by a zero byte.
fn stream_of(response: &[u8]) -> Vec<u8> {
    let mut stream = response.to_vec();
    stream.push(0);
    stream
}

/// Reads a delimited string from the front of `stream`, byte by byte.
fn read_string(stream: &mut &[u8]) -> Vec<u8> {
    let mut decoder = Decoder::new(Shape::Text);
    let mut out = Vec::new();
    while !decoder.is_complete() {
        let (byte, rest) = stream.split_first().expect("Unexpected end of stream.");
        decoder.feed(&[*byte], &mut out);
        *stream = rest;
    }
    decoder.into_info()
}

fn get_response(connection: &Connection<Authenticated>, stream: &mut &[u8]) -> Result<String, ClientError> {
    let info = connection.read_string(read_string(stream))?;
    let (status, rest) = stream.split_first().expect("Unexpected end of stream.");
    *stream = rest;
    connection.get_response(info.into_bytes(), *status)
}

fn client() -> Client {
    Client::new(Connection::new().authenticate(0).unwrap())
}

#[test]
fn client_test_formats_as_debug() {
    let _ = format!("{:?}", client());
}

#[test]
fn client_test_clones() {
    let _ = client().clone();
    let _ = client().try_clone();
}

#[test]
fn client_test_database_is_created_with_input() {
    let stream = stream_of("test\0".as_bytes());
    let mut client = client();
    let mut buffer = Vec::new();

    client
        .create("boy_sminem", &mut buffer)
        .with_input("<wojak><pink_index>69</pink_index></wojak>".as_bytes(), &mut buffer);
    let info = get_response(client.connection(), &mut &stream[..]).unwrap();

    assert_eq!(
        String::from_utf8(buffer).unwrap(),
        "\u{8}boy_sminem\u{0}<wojak><pink_index>69</pink_index></wojak>\u{0}".to_owned()
    );
    assert_eq!("test", info);
}

#[test]
fn client_test_database_is_created_without_input() {
    let stream = stream_of("test\0".as_bytes());
    let mut client = client();
    let mut buffer = Vec::new();

    client.create("boy_sminem", &mut buffer).without_input(&mut buffer);
    let info = get_response(client.connection(), &mut &stream[..]).unwrap();

    assert_eq!(String::from_utf8(buffer).unwrap(), "\u{8}boy_sminem\u{0}\u{0}".to_owned());
    assert_eq!("test", info);
}

#[test]
fn client_test_resource_is_replaced() {
    let stream = stream_of("test\0".as_bytes());
    let mut client = client();
    let mut buffer = Vec::new();

    client.replace("boy_sminem", "<wojak><pink_index>69</pink_index></wojak>".as_bytes(), &mut buffer);
    let info = get_response(client.connection(), &mut &stream[..]).unwrap();

    assert_eq!(
        String::from_utf8(buffer).unwrap(),
        "\u{c}boy_sminem\u{0}<wojak><pink_index>69</pink_index></wojak>\u{0}".to_owned()
    );
    assert_eq!("test", info);
}

#[test]
fn client_test_resource_is_stored() {
    let stream = stream_of("test\0".as_bytes());
    let mut client = client();
    let mut buffer = Vec::new();

    client.store("boy_sminem", "<wojak><pink_index>69</pink_index></wojak>".as_bytes(), &mut buffer);
    let info = get_response(client.connection(), &mut &stream[..]).unwrap();

    assert_eq!(
        String::from_utf8(buffer).unwrap(),
        "\u{d}boy_sminem\u{0}<wojak><pink_index>69</pink_index></wojak>\u{0}".to_owned()
    );
    assert_eq!("test", info);
}

#[test]
fn client_test_resource_is_added() {
    let stream = stream_of("test\0".as_bytes());
    let mut client = client();
    let mut buffer = Vec::new();

    client.add("boy_sminem", "<wojak><pink_index>69</pink_index></wojak>".as_bytes(), &mut buffer);
    let info = get_response(client.connection(), &mut &stream[..]).unwrap();

    assert_eq!(
        String::from_utf8(buffer).unwrap(),
        "\u{9}boy_sminem\u{0}<wojak><pink_index>69</pink_index></wojak>\u{0}".to_owned()
    );
    assert_eq!("test", info);
}

#[test]
fn test_create_frames_command_name_and_escaped_input() {
    let mut client = client();
    let mut buffer = Vec::new();

    client.create("X", &mut buffer).with_input("Y".as_bytes(), &mut buffer);
    assert_eq!(vec![0x08, b'X', 0, b'Y', 0], buffer);

    let mut buffer = Vec::new();
    client.create("X", &mut buffer).with_input(&[0, 0xFF], &mut buffer);
    assert_eq!(vec![0x08, b'X', 0, 0xFF, 0, 0xFF, 0xFF, 0], buffer);
}

#[test]
fn test_store_escapes_binary_input() {
    let mut client = client();
    let mut buffer = Vec::new();

    client.store("blob", &[0u8, 1, 2, 3, 4], &mut buffer);

    assert_eq!(vec![13u8, b'b', b'l', b'o', b'b', 0, 0xFF, 0, 1, 2, 3, 4, 0], buffer);
}

#[test]
fn test_execute_frames_command_text_only() {
    let mut buffer = Vec::new();
    let response = client().execute("LIST", &mut buffer);

    assert_eq!(b"LIST\0".to_vec(), buffer);
    assert!(!response.is_complete());
    assert_eq!(None, response.status());
}

#[test]
fn test_query_with_info_switches_info_on_and_keeps_code() {
    let mut buffer = Vec::new();
    let (response, code) = client().query("count(/Root/*)".as_bytes()).with_info(&mut buffer);

    assert_eq!(b"SET QUERYINFO true\0".to_vec(), buffer);
    assert_eq!(b"count(/Root/*)".to_vec(), code);
    assert!(!response.is_complete());
}

#[test]
fn test_query_without_info_switches_info_off_and_keeps_code() {
    let mut buffer = Vec::new();
    let (_, code) = client().query("/".as_bytes()).without_info(&mut buffer);

    assert_eq!(b"SET QUERYINFO false\0".to_vec(), buffer);
    assert_eq!(b"/".to_vec(), code);
}

#[test]
fn test_send_query_frames_code_zero_and_query() {
    let mut buffer = Vec::new();
    client().send_query("count(/Root/*)".as_bytes(), &mut buffer);

    assert_eq!(b"\0count(/Root/*)\0".to_vec(), buffer);
}

#[test]
fn test_standard_command_codes() {
    assert_eq!(0, Command::Query.code());
    assert_eq!(8, Command::Create.code());
    assert_eq!(9, Command::Add.code());
    assert_eq!(12, Command::Replace.code());
    assert_eq!(13, Command::Store.code());
}
