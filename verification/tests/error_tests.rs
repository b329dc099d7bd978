use solforge::error::AppError;

#[test]
fn from_error_keeps_message() {
    let e = AppError::from_error("boom");
    assert_eq!(e.message(), "boom");
}

#[test]
fn response_body_prefixes_message() {
    let e = AppError::from_error("Find query failed");
    assert_eq!(
        e.response_body(),
        "Failed processing request due to error: Find query failed"
    );
}

#[test]
fn response_body_of_empty_message() {
    let e = AppError::from_error("");
    assert_eq!(e.response_body(), "Failed processing request due to error: ");
}
