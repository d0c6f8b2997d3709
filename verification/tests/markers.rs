use basex::{Authenticated, Unauthenticated, WithInfo, WithoutInfo};

#[test]
fn connection_test_authenticated_formats_as_debug() {
    let _ = format!("{:?}", Authenticated);
}

#[test]
fn connection_test_unauthenticated_formats_as_debug() {
    let _ = format!("{:?}", Unauthenticated);
}

#[test]
fn query_test_with_info_formats_as_debug() {
    let _ = format!("{:?}", WithInfo);
}

#[test]
fn query_test_without_info_formats_as_debug() {
    let _ = format!("{:?}", WithoutInfo);
}
