use basex::analysis::RawInfo;
use basex::decoder::{Decoder, Shape, Status};
use basex::query::Command;
use basex::{Authenticated, Client, ClientError, Connection, Query, WithInfo};

const QUERY_INFO: &str = r#"
Query:
count(/None/*)

Compiling:
- rewrite context value to document-node() item: . -> db:open-pre("d601a46", 0)
- rewrite util:root(nodes) to document-node() item: util:root(db:open-pre("d601a46", 0)) -> db:open-pre("d601a46", 0)
- rewrite fn:count(items) to xs:integer item: count(db:open-pre("d601a46", 0)/None/*) -> 3

Optimized Query:
3

Parsing: 381.41 ms
Compiling: 12.22 ms
Evaluating: 0.09 ms
Printing: 4.79 ms
Total Time: 398.5 ms

Hit(s): 1 Item
Updated: 0 Items
Printed: 1 b
Read Locking: d601a46
Write Locking: (none)

Query executed in 398.5 ms.
"#;

/// The stream that the server's bytes come from, closed by a zero byte.
fn stream_of(response: &[u8]) -> Vec<u8> {
    let mut stream = response.to_vec();
    stream.push(0);
    stream
}

/// Reads a delimited string from the front of `stream`, byte by byte.
fn read_string(stream: &mut &[u8]) -> Vec<u8> {
    let mut decoder = Decoder::new(Shape::Text);
    let mut out = Vec::new();
    while !decoder.is_complete() {
        let (byte, rest) = stream.split_first().expect("Unexpected end of stream.");
        decoder.feed(&[*byte], &mut out);
        *stream = rest;
    }
    decoder.into_info()
}

fn get_response(connection: &Connection<Authenticated>, stream: &mut &[u8]) -> Result<String, ClientError> {
    let info = connection.read_string(read_string(stream))?;
    let (status, rest) = stream.split_first().expect("Unexpected end of stream.");
    *stream = rest;
    connection.get_response(info.into_bytes(), *status)
}

fn query() -> Query<WithInfo> {
    Query::with_info("test".to_owned(), Client::new(Connection::new().authenticate(0).unwrap()))
}

#[test]
fn query_test_formats_as_debug() {
    let _ = format!("{:?}", Query::with_info("".to_owned(), Client::new(Connection::new().authenticate(0).unwrap())));
}

#[test]
fn test_borrows_as_client() {
    let query = Query::with_info("".to_owned(), Client::new(Connection::new().authenticate(0).unwrap()));
    let _: &Client = query.client();
}

#[test]
fn query_test_query_binds_arguments() {
    let stream = stream_of("\0\0\0\0\0".as_bytes());
    let mut stream = &stream[..];
    let mut query = query();
    let mut buffer = Vec::new();

    query.bind("foo", &mut buffer).with_value("aaa", &mut buffer);
    get_response(query.client().connection(), &mut stream).unwrap();
    query.bind("bar", &mut buffer).with_value(123, &mut buffer);
    get_response(query.client().connection(), &mut stream).unwrap();
    query.bind("void", &mut buffer).without_value(&mut buffer);
    get_response(query.client().connection(), &mut stream).unwrap();

    let actual_buffer = String::from_utf8(buffer).unwrap();
    let expected_buffer = "\u{3}test\u{0}foo\u{0}aaa\u{0}xs:string\u{0}\
        \u{3}test\u{0}bar\u{0}123\u{0}xs:int\u{0}\
        \u{3}test\u{0}void\u{0}\u{0}\u{0}"
        .to_owned();

    assert_eq!(expected_buffer, actual_buffer);
}

#[test]
fn query_test_query_binds_value_to_context() {
    let stream = stream_of("\0\0".as_bytes());
    let mut query = query();
    let mut buffer = Vec::new();

    query.context("aaa".as_bytes(), &mut buffer);
    get_response(query.client().connection(), &mut &stream[..]).unwrap();

    let actual_buffer = String::from_utf8(buffer).unwrap();
    let expected_buffer = "\u{e}test\u{0}aaa\u{0}document-node()\u{0}".to_owned();

    assert_eq!(expected_buffer, actual_buffer);
}

#[test]
fn query_test_query_binds_value_to_context_with_empty_type() {
    let stream = stream_of("\0\0".as_bytes());
    let mut query = query();
    let mut buffer = Vec::new();

    query.context("aaa".as_bytes(), &mut buffer);
    get_response(query.client().connection(), &mut &stream[..]).unwrap();

    let actual_buffer = String::from_utf8(buffer).unwrap();
    let expected_buffer = "\u{e}test\u{0}aaa\u{0}document-node()\u{0}".to_owned();

    assert_eq!(expected_buffer, actual_buffer);
}

#[test]
fn query_test_query_binds_empty_value_to_context() {
    let stream = stream_of("\0\0".as_bytes());
    let mut query = query();
    let mut buffer = Vec::new();

    query.context(&[], &mut buffer);
    get_response(query.client().connection(), &mut &stream[..]).unwrap();

    let actual_buffer = String::from_utf8(buffer).unwrap();
    let expected_buffer = "\u{e}test\u{0}\u{0}document-node()\u{0}".to_owned();

    assert_eq!(expected_buffer, actual_buffer);
}

#[test]
fn query_test_query_executes() {
    let expected_response = "test_response";
    let stream = stream_of((expected_response.to_owned() + "\0").as_bytes());
    let mut buffer = Vec::new();

    let query = query();
    let mut actual_response = Vec::new();
    let mut response = query.execute(&mut buffer);
    let used = response.read(&stream, &mut actual_response);

    assert_eq!(stream.len(), used);
    assert_eq!(expected_response, String::from_utf8(actual_response).unwrap());
    assert!(response.is_complete());
    assert_eq!(Some(Status::Success), response.status());

    let _query = response.close().unwrap();
    let actual_buffer = String::from_utf8(buffer).unwrap();
    let expected_buffer = "\u{5}test\u{0}".to_owned();

    assert_eq!(expected_buffer, actual_buffer);
}

#[test]
fn query_test_query_runs_updating_command() {
    let stream = stream_of("true\0".as_bytes());
    let mut query = query();
    let mut buffer = Vec::new();

    query.updating(&mut buffer);
    let answer = get_response(query.client().connection(), &mut &stream[..]).unwrap();
    let actual_response = query.updating_response(&answer);

    assert!(actual_response);

    let actual_buffer = String::from_utf8(buffer).unwrap();
    let expected_buffer = "\u{1e}test\u{0}".to_owned();

    assert_eq!(expected_buffer, actual_buffer);
}

#[test]
fn query_test_query_runs_non_updating_command() {
    let stream = stream_of("false\0".as_bytes());
    let mut query = query();
    let mut buffer = Vec::new();

    query.updating(&mut buffer);
    let answer = get_response(query.client().connection(), &mut &stream[..]).unwrap();
    let actual_response = query.updating_response(&answer);

    assert!(!actual_response);

    let actual_buffer = String::from_utf8(buffer).unwrap();
    let expected_buffer = "\u{1e}test\u{0}".to_owned();

    assert_eq!(expected_buffer, actual_buffer);
}

#[test]
#[should_panic]
fn query_test_query_panics_updating_command_response_is_not_bool() {
    let stream = stream_of("test_response\0".as_bytes());
    let mut query = query();
    let mut buffer = Vec::new();

    query.updating(&mut buffer);
    let answer = get_response(query.client().connection(), &mut &stream[..]).unwrap();
    let _ = query.parse_updating(&answer).expect("Expected boolean string");
}

#[test]
fn query_test_query_runs_options_command() {
    let expected_response = "ident=no";
    let stream = stream_of(format!("{}\0\0", expected_response).as_bytes());
    let mut query = query();
    let mut buffer = Vec::new();

    query.options(&mut buffer);
    let answer = get_response(query.client().connection(), &mut &stream[..]).unwrap();
    let actual_response = query.options_response(&answer);

    assert_eq!(expected_response, &actual_response.to_string());

    let actual_buffer = String::from_utf8(buffer).unwrap();
    let expected_buffer = "\u{7}test\u{0}".to_owned();

    assert_eq!(expected_buffer, actual_buffer);
}

#[test]
fn query_test_query_runs_info_command() {
    let expected_response = QUERY_INFO;
    let stream = stream_of(format!("{}\0\0", expected_response).as_bytes());
    let mut query = query();
    let mut buffer = Vec::new();

    query.info(&mut buffer);
    let answer = get_response(query.client().connection(), &mut &stream[..]).unwrap();
    let info: RawInfo = query.info_response(answer);

    assert_eq!("count(/None/*)", info.query());
    assert_eq!("3", info.optimized_query());
    assert_eq!("381.41 ms", info.string_from("Parsing: "));
    assert_eq!("12.22 ms", info.string_from("Compiling: "));
    assert_eq!("0.09 ms", info.string_from("Evaluating: "));
    assert_eq!("4.79 ms", info.string_from("Printing: "));
    assert_eq!("398.5 ms", info.string_from("Total Time: "));
    assert_eq!(3, info.compiling().len());
    assert_eq!(1, info.hits());
    assert_eq!(0, info.updated());
    assert_eq!(1, info.printed());
    assert_eq!(Some("d601a46"), info.read_locking().as_ref().map(|v| v.as_str()));
    assert_eq!(None, info.write_locking());

    let actual_buffer = String::from_utf8(buffer).unwrap();
    let expected_buffer = "\u{6}test\u{0}".to_owned();

    assert_eq!(expected_buffer, actual_buffer);
}

#[test]
fn query_test_query_closes() {
    let expected_response = "test_response\0";
    let stream = stream_of(expected_response.as_bytes());
    let mut buffer = Vec::new();

    let query = query();
    let client = query.close(&mut buffer);
    get_response(client.connection(), &mut &stream[..]).unwrap();

    let actual_buffer = String::from_utf8(buffer).unwrap();
    let expected_buffer = "\u{2}test\u{0}".to_owned();

    assert_eq!(expected_buffer, actual_buffer);
}

#[test]
fn test_query_mode_command_codes() {
    assert_eq!(2, Command::Close.code());
    assert_eq!(3, Command::Bind.code());
    assert_eq!(5, Command::Execute.code());
    assert_eq!(6, Command::Info.code());
    assert_eq!(7, Command::Options.code());
    assert_eq!(14, Command::Context.code());
    assert_eq!(30, Command::Updating.code());
}

#[test]
fn test_updating_answer_is_true_or_false_and_nothing_else() {
    let query = query();

    assert_eq!(Some(true), query.parse_updating("true"));
    assert_eq!(Some(false), query.parse_updating("false"));
    assert_eq!(None, query.parse_updating("True"));
    assert_eq!(None, query.parse_updating("true "));
    assert_eq!(None, query.parse_updating(""));
}

#[test]
fn test_query_id_with_special_bytes_is_escaped() {
    let mut query = Query::without_info("a\0b".to_owned(), Client::new(Connection::new().authenticate(0).unwrap()));
    let mut buffer = Vec::new();

    query.updating(&mut buffer);

    assert_eq!(vec![0x1e, b'a', 0xFF, 0, b'b', 0], buffer);
}
