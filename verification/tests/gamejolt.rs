use zegra::platforms::gamejolt::UNSUPPORTED_REASON;

#[test]
fn reason_is_non_empty() {
    assert!(!UNSUPPORTED_REASON.is_empty());
}
