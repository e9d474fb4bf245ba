use rust_dll::{current_timestamp, identity_label, join_with_separator, release, TerminatedString};

fn read_until_nul(buf: &[u8]) -> &[u8] {
    match buf.iter().position(|b| *b == 0) {
        Some(n) => &buf[..n],
        None => buf,
    }
}

#[test]
fn release_absent_handle_does_nothing() {
    release(None);
}

#[test]
fn release_each_produced_handle_once() {
    release(Some(current_timestamp()));
    release(Some(identity_label()));
    release(Some(join_with_separator(Some(b"a".as_slice()), Some(b"b".as_slice()))));
    release(Some(join_with_separator(None, None)));
}

#[test]
fn handles_read_back_to_their_content() {
    let handles = vec![
        current_timestamp(),
        identity_label(),
        join_with_separator(Some(b"Hello".as_slice()), Some(b"World".as_slice())),
        join_with_separator(None, Some(b"x".as_slice())),
    ];
    for h in handles {
        let buf = h.as_bytes_with_nul();
        assert_eq!(buf.last(), Some(&0u8));
        assert_eq!(read_until_nul(buf), h.as_bytes());
        assert_eq!(buf.len(), h.len() + 1);
        release(Some(h));
    }
}

#[test]
fn built_from_content() {
    let h = TerminatedString::from_content(b"abc".to_vec());
    assert_eq!(h.as_bytes_with_nul(), b"abc\0");
    let t = TerminatedString::from_text("Olá");
    assert_eq!(t.as_bytes(), "Olá".as_bytes());
    let s = TerminatedString::from_slice(b"");
    assert_eq!(s.into_bytes_with_nul(), vec![0u8]);
}
