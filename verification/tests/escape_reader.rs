use basex::codec::{escape, escape_into, unescape_into};
use basex::EscapeReader;

/// Relays `source` through the encoder into an output of `capacity` bytes
/// per call, until the source is dry and nothing is pending.
fn read_to_end(source: &[u8], capacity: usize) -> Vec<u8> {
    let mut escaped = EscapeReader::new();
    let mut source = source;
    let mut wire = Vec::new();
    loop {
        let room = escaped.room(capacity).min(source.len());
        let (input, rest) = source.split_at(room);
        source = rest;
        let out = escaped.read(input, capacity);
        assert!(out.len() <= capacity);
        if out.is_empty() {
            break;
        }
        wire.extend(out);
    }
    assert_eq!(0, escaped.pending_len());
    wire
}

#[test]
fn escape_reader_test_escaping_without_escape_bytes_leaves_buffer_intact() {
    let expected_bytes = [1u8, 2, 3, 4];
    let actual_bytes = read_to_end(&expected_bytes, 32);

    assert_eq!(expected_bytes.to_vec(), actual_bytes);
}

#[test]
fn escape_reader_test_escaping_with_escape_bytes() {
    let bytes = [1u8, 0, 9, 0xFF, 6];
    let expected_bytes = vec![1u8, 0xFF, 0, 9, 0xFF, 0xFF, 6];
    let actual_bytes = read_to_end(&bytes, 32);

    assert_eq!(expected_bytes, actual_bytes);
}

#[test]
fn escape_reader_test_escaping_only_escape_bytes() {
    let bytes = [0u8].repeat(4);
    let expected_bytes = [0xFF, 0u8].repeat(4);
    let actual_bytes = read_to_end(&bytes, 32);

    assert_eq!(expected_bytes, actual_bytes);
}

#[test]
fn escape_reader_test_escaping_only_escape_bytes_on_multiple_reading() {
    let bytes = [0u8].repeat(20);
    let expected_bytes = [0xFF, 0u8].repeat(20);
    let actual_bytes = read_to_end(&bytes, 32);

    assert_eq!(expected_bytes, actual_bytes);
}

#[test]
fn escape_reader_test_escaping_from_empty_reader_does_nothing() {
    let expected_bytes: Vec<u8> = vec![];
    let actual_bytes = read_to_end(&[], 32);

    assert_eq!(expected_bytes, actual_bytes);
}

#[test]
fn escape_reader_test_escaping_into_empty_buffer_does_nothing() {
    let mut escaped = EscapeReader::new();

    let expected_bytes: [u8; 0] = [];
    assert_eq!(0, escaped.room(0));
    let actual_bytes = escaped.read(&[], 0);

    assert_eq!(expected_bytes.to_vec(), actual_bytes);
}

#[test]
fn test_overflow_is_carried_to_the_next_call() {
    let mut escaped = EscapeReader::new();

    assert_eq!(4, escaped.room(4));
    assert_eq!(vec![0xFFu8, 0, 0xFF, 0xFF], escaped.read(&[0, 0xFF, 5, 0], 4));
    assert_eq!(3, escaped.pending_len());
    assert_eq!(1, escaped.room(4));
    assert_eq!(vec![5u8, 0xFF, 0, 7], escaped.read(&[7], 4));
    assert_eq!(0, escaped.pending_len());
}

#[test]
fn test_pending_bytes_beyond_capacity_stay_pending() {
    let mut escaped = EscapeReader::new();

    assert_eq!(vec![0xFFu8], escaped.read(&[0, 0], 1));
    assert_eq!(3, escaped.pending_len());
    assert_eq!(0, escaped.room(2));
    assert_eq!(vec![0u8, 0xFF], escaped.read(&[], 2));
    assert_eq!(vec![0u8], escaped.read(&[], 2));
    assert_eq!(Vec::<u8>::new(), escaped.read(&[], 2));
}

#[test]
fn test_relay_gives_escaped_bytes_for_every_capacity() {
    let data: Vec<u8> = vec![0, 1, 0xFF, 0xFF, 0, 0, 3, 4, 5, 0xFF, 6, 0];
    let expected = escape(&data);

    for capacity in 1..40 {
        assert_eq!(expected, read_to_end(&data, capacity));
    }
}

#[test]
fn test_escape_prefixes_special_bytes() {
    assert_eq!(vec![0xFFu8, 0, 1, 2, 3, 4, 0xFF, 0xFF], escape(&[0, 1, 2, 3, 4, 0xFF]));
    assert_eq!(Vec::<u8>::new(), escape(&[]));
}

#[test]
fn test_escape_into_appends() {
    let mut out = vec![9u8];
    escape_into(&[0xFF], &mut out);

    assert_eq!(vec![9u8, 0xFF, 0xFF], out);
}

#[test]
fn test_unescape_recovers_every_byte_sequence_of_length_up_to_three() {
    let values = [0u8, 1, 0xFE, 0xFF];
    let mut sequences: Vec<Vec<u8>> = vec![vec![]];
    for a in values {
        sequences.push(vec![a]);
        for b in values {
            sequences.push(vec![a, b]);
            for c in values {
                sequences.push(vec![a, b, c]);
            }
        }
    }
    for data in sequences {
        let mut wire = escape(&data);
        wire.push(0);
        wire.push(42);
        let mut flag = false;
        let mut out = Vec::new();
        let scanned = unescape_into(&mut flag, &wire, &mut out);

        assert!(scanned.found);
        assert_eq!(wire.len() - 1, scanned.used);
        assert!(!flag);
        assert_eq!(data, out);
    }
}

#[test]
fn test_unescape_in_chunks_of_one_byte() {
    let data = [0u8, 0xFF, 0xFF, 0, 7];
    let mut wire = escape(&data);
    wire.push(0);
    let mut flag = false;
    let mut out = Vec::new();
    let mut found = false;
    for byte in wire {
        assert!(!found);
        let scanned = unescape_into(&mut flag, &[byte], &mut out);
        assert_eq!(1, scanned.used);
        found = scanned.found;
    }

    assert!(found);
    assert_eq!(data.to_vec(), out);
}

#[test]
fn test_unescape_without_delimiter_reads_everything() {
    let mut flag = false;
    let mut out = Vec::new();
    let scanned = unescape_into(&mut flag, &[1, 0xFF, 0, 2, 0xFF], &mut out);

    assert!(!scanned.found);
    assert_eq!(5, scanned.used);
    assert!(flag);
    assert_eq!(vec![1u8, 0, 2], out);
}
