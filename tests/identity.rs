use rust_dll::{identity_label, release, IDENTITY_TEXT};

#[test]
fn identity_is_fixed_text() {
    let r = identity_label();
    assert_eq!(r.as_bytes(), b"mario ANTUNES");
    assert_eq!(r.as_bytes_with_nul(), b"mario ANTUNES\0");
    assert_eq!(IDENTITY_TEXT, "mario ANTUNES");
    release(Some(r));
}

#[test]
fn identity_is_the_same_on_every_call() {
    let first = identity_label();
    for _ in 0..5 {
        let again = identity_label();
        assert_eq!(again.as_bytes(), first.as_bytes());
        release(Some(again));
    }
    release(Some(first));
}
