use basex::serializer::{FromAttribute, Options, ParseError, ToAttribute};

#[test]
fn test_cloning_options_produces_same_options() -> Result<(), ParseError> {
    let expected_options = Options::from_str("encoding=US-ASCII,indent=yes")?;
    let actual_options = expected_options.clone();
    assert_eq!(expected_options, actual_options);
    Ok(())
}

#[test]
fn test_true_attribute_as_bool_is_true() {
    let test: bool = FromAttribute::from_str(true.as_str()).unwrap();
    assert!(test);
}

#[test]
fn test_false_attribute_as_bool_is_false() {
    let test: bool = FromAttribute::from_str(false.as_str()).unwrap();
    assert!(!test);
}

#[test]
#[should_panic]
fn test_non_boolean_str_panics_as_bool() {
    let _: bool = FromAttribute::from_str("test").unwrap();
}

#[test]
fn test_parse_error_formats_as_debug() {
    let _ = format!("{:?}", ParseError::new("test"));
}

#[test]
fn test_parse_error_formats_as_empty() {
    assert_eq!("expected yes/no, got: test", ParseError::new("test").to_string());
}

#[test]
fn test_options_empty_has_no_attributes() {
    let _ = format!("{:?}", Options::empty());
    assert_eq!("", Options::empty().to_string());
    assert!(Options::empty().get::<&str>("indent").is_none());
}

#[test]
fn test_options_formats_as_debug() {
    let _ = format!("{:?}", Options::empty());
}

#[test]
fn test_attributes_can_be_inserted_into_options() {
    let mut options = Options::from_str("").unwrap();
    options.set("indent", false);
    options.set("encoding", "UTF-8");
    assert_eq!("encoding=UTF-8,indent=no", &options.to_string());
}

#[test]
fn test_attributes_can_be_read_from_options() -> Result<(), ParseError> {
    let options = Options::from_str("encoding=UTF-8,indent=yes")?;
    assert_eq!(options.get::<bool>("indent").unwrap()?, true);
    assert_eq!(options.get::<&str>("encoding").unwrap()?, "UTF-8");
    Ok(())
}

#[test]
fn test_changing_value_changes_options() -> Result<(), ParseError> {
    let mut options = Options::from_str("encoding=US-ASCII,indent=yes")?;

    let indent: bool = options.get("indent").unwrap()?;
    assert!(indent);
    options.set("indent", false);
    let indent: bool = options.get("indent").unwrap()?;
    assert!(!indent);

    let encoding: &str = options.get("encoding").unwrap()?;
    assert_eq!("US-ASCII", encoding);
    options.set("encoding", "UTF-8");
    let encoding: &str = options.get("encoding").unwrap()?;
    assert_eq!("UTF-8", encoding);

    assert_eq!("encoding=UTF-8,indent=no", &options.to_string());
    Ok(())
}

#[test]
fn test_options_are_ordered_by_key() {
    let options = Options::from_str("zeta=1,alpha=2,mid=3,alpha=4").unwrap();
    assert_eq!("alpha=4,mid=3,zeta=1", options.to_string());
}

#[test]
fn test_key_that_is_a_prefix_comes_first() {
    let mut options = Options::empty();
    options.set("indents", "2");
    options.set("indent", "1");
    options.set("inden", "0");
    assert_eq!("inden=0,indent=1,indents=2", options.to_string());
}

#[test]
fn test_options_keep_entry_with_empty_value() {
    let options = Options::from_str("method,indent=no").unwrap();
    assert_eq!(options.get::<&str>("method").unwrap().unwrap(), "");
    assert_eq!("indent=no,method=", options.to_string());
}

#[test]
fn test_options_drop_last_entry_without_key() {
    let options = Options::from_str("a=1,=x").unwrap();
    assert_eq!("a=1", options.to_string());
}

#[test]
fn test_options_read_second_equals_sign_as_end_of_key_again() {
    let options = Options::from_str("a=b=c").unwrap();
    assert_eq!(options.get::<&str>("a").unwrap().unwrap(), "bc");
}

#[test]
fn test_missing_attribute_is_none() {
    let options = Options::from_str("encoding=UTF-8").unwrap();
    assert!(options.get::<&str>("indent").is_none());
}

#[test]
fn test_non_boolean_attribute_is_an_error_with_its_text() {
    let options = Options::from_str("indent=maybe").unwrap();
    let error = options.get::<bool>("indent").unwrap().unwrap_err();
    assert_eq!("expected yes/no, got: maybe", error.to_string());
}

#[test]
fn test_text_attribute_reads_as_itself() {
    let text: &str = FromAttribute::from_str("anything").unwrap();
    assert_eq!("anything", text);
    assert_eq!("anything", "anything".as_str());
}
