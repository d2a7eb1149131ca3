use micro_xoodyak::Error;

#[test]
fn invalid_buffer_length_message() {
    assert_eq!(Error::InvalidBufferLength.message(), "Invalid buffer length");
}

#[test]
fn invalid_parameter_length_message() {
    assert_eq!(Error::InvalidParameterLength.message(), "Key too long");
}

#[test]
fn key_required_message() {
    assert_eq!(Error::KeyRequired.message(), "A key is required");
}

#[test]
fn tag_mismatch_message() {
    assert_eq!(Error::TagMismatch.message(), "Tag mismatch");
}

#[test]
fn errors_compare_by_variant() {
    assert_eq!(Error::TagMismatch, Error::TagMismatch);
    assert_ne!(Error::TagMismatch, Error::KeyRequired);
    let e = Error::InvalidBufferLength;
    let copy = e;
    assert_eq!(e, copy);
}
