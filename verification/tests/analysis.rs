use basex::analysis::{split_duration, DurationText, RawInfo, Unit};
use std::time::Duration;

const QUERY_INFO: &str = r#"
Query:
count(/None/*)

Compiling:
- rewrite context value to document-node() item: . -> db:open-pre("d601a46", 0)
- rewrite util:root(nodes) to document-node() item: util:root(db:open-pre("d601a46", 0)) -> db:open-pre("d601a46", 0)
- rewrite fn:count(items) to xs:integer item: count(db:open-pre("d601a46", 0)/None/*) -> 3

Optimized Query:
3

Parsing: 381.41 ms
Compiling: 12.22 ms
Evaluating: 0.09 ms
Printing: 4.79 ms
Total Time: 398.5 ms

Hit(s): 1 Item
Updated: 0 Items
Printed: 1 b
Read Locking: d601a46
Write Locking: (none)

Query executed in 398.5 ms.
"#;

/// The duration that the parts write.
fn duration_of(info: &RawInfo, header: &str) -> Duration {
    let parts = info.find_duration(header).unwrap();
    let amount: f64 = parts.amount.parse().unwrap();

    match parts.unit {
        Unit::Seconds => Duration::from_secs_f64(amount),
        Unit::Milliseconds => Duration::from_nanos((amount * 1000000.0) as u64),
    }
}

fn parts(amount: &str, unit: Unit) -> Option<DurationText> {
    Some(DurationText { amount: amount.to_owned(), unit })
}

#[test]
fn test_parses_with_correct_values() {
    let info = RawInfo::new(QUERY_INFO.to_owned());

    assert_eq!("count(/None/*)", info.query());
    assert_eq!("3", info.optimized_query());
    assert_eq!(Duration::from_micros(381410), duration_of(&info, "Parsing: "));
    assert_eq!(Duration::from_micros(12220), duration_of(&info, "Compiling: "));
    assert_eq!(Duration::from_micros(0090), duration_of(&info, "Evaluating: "));
    assert_eq!(Duration::from_micros(4790), duration_of(&info, "Printing: "));
    assert_eq!(Duration::from_micros(398500), duration_of(&info, "Total Time: "));
    assert_eq!(
        vec![
            "rewrite context value to document-node() item: \
            . -> db:open-pre(\"d601a46\", 0)",
            "rewrite util:root(nodes) to document-node() item: \
            util:root(db:open-pre(\"d601a46\", 0)) -> db:open-pre(\"d601a46\", 0)",
            "rewrite fn:count(items) to xs:integer item: \
            count(db:open-pre(\"d601a46\", 0)/None/*) -> 3",
        ],
        info.compiling()
    );
    assert_eq!(1, info.hits());
    assert_eq!(0, info.updated());
    assert_eq!(1, info.printed());
    assert_eq!(Some("d601a46"), info.read_locking().as_ref().map(|v| v.as_str()));
    assert_eq!(None, info.write_locking());
}

#[test]
fn test_durations_are_split_into_amount_and_unit() {
    let info = RawInfo::new(QUERY_INFO.to_owned());

    assert_eq!(parts("381.41", Unit::Milliseconds), info.find_duration("Parsing: "));
    assert_eq!(parts("12.22", Unit::Milliseconds), info.find_duration("Compiling: "));
    assert_eq!(parts("0.09", Unit::Milliseconds), info.find_duration("Evaluating: "));
    assert_eq!(parts("4.79", Unit::Milliseconds), info.find_duration("Printing: "));
    assert_eq!(parts("398.5", Unit::Milliseconds), info.find_duration("Total Time: "));
    assert_eq!(None, info.find_duration("Hit(s): "));
    assert_eq!(None, info.find_duration("Missing: "));
}

#[test]
fn test_duration_is_amount_before_first_space_and_letters_behind_it() {
    assert_eq!(parts("69", Unit::Seconds), split_duration("69 s"));
    assert_eq!(parts("69", Unit::Milliseconds), split_duration("69 ms"));
    assert_eq!(parts("1.5", Unit::Seconds), split_duration("1.5 s."));
    assert_eq!(parts("1.5", Unit::Milliseconds), split_duration("1.5 ms (total)"));
    assert_eq!(parts("", Unit::Seconds), split_duration(" s"));
    assert_eq!(parts("x", Unit::Seconds), split_duration("x s 2"));
}

#[test]
fn test_duration_with_other_unit_or_without_space_has_no_parts() {
    assert_eq!(None, split_duration("69 mss."));
    assert_eq!(None, split_duration("69 m"));
    assert_eq!(None, split_duration("69 sé"));
    assert_eq!(None, split_duration("69 "));
    assert_eq!(None, split_duration("69  ms"));
    assert_eq!(None, split_duration("69ms"));
    assert_eq!(None, split_duration(""));
}

#[test]
fn analysis_test_formats_as_debug() {
    let _ = format!("{:?}", RawInfo::new(QUERY_INFO.to_owned()));
}

#[test]
fn test_formats_as_display() {
    assert_eq!(QUERY_INFO, RawInfo::new(QUERY_INFO.to_owned()).to_string());
}

#[test]
fn test_can_eq() {
    assert_eq!(RawInfo::new(QUERY_INFO.to_owned()), RawInfo::new(QUERY_INFO.to_owned()));
}

#[test]
fn analysis_test_clones() {
    let _ = RawInfo::new(QUERY_INFO.to_owned()).clone();
}

#[test]
fn test_missing_header_has_no_value() {
    let info = RawInfo::new("Parsing: 1 ms\n".to_owned());
    assert_eq!(None, info.find_value("Printing: "));
    assert_eq!(None, info.find_count("Hit(s): "));
    assert!(info.find_compiling().is_none());
}

#[test]
fn test_value_without_end_of_line_is_none() {
    let info = RawInfo::new("Parsing: 1 ms".to_owned());
    assert_eq!(None, info.find_value("Parsing: "));
}

#[test]
fn test_count_needs_a_leading_digit() {
    let info = RawInfo::new("Updated: many\nPrinted: 12 b\nHit(s): 12345678901234567890123 Items\n".to_owned());
    assert_eq!(None, info.find_count("Updated: "));
    assert_eq!(Some(12), info.find_count("Printed: "));
    assert_eq!(None, info.find_count("Hit(s): "));
}

#[test]
fn test_single_compilation_step() {
    let info = RawInfo::new("Compiling:\n- only step\n\nrest\n".to_owned());
    assert_eq!(vec!["only step"], info.compiling());
}
