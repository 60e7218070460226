use chat_relay::user_error::UserOpError;

#[test]
fn error_keeps_code_and_message() {
    let e = UserOpError::new(123, "bad query");
    assert_eq!(e.error_code, 123);
    assert_eq!(e.msg, "bad query");
    assert_eq!(e.message(), "bad query");
}

#[test]
fn error_maps_to_internal_server_error() {
    let e = UserOpError::new(1, "x");
    assert_eq!(e.status_code(), 500);
}
