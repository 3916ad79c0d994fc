//! Unit checks of the index line renderer.
use gpkpack::index::{push_decimal, render_line, Entry};

#[test]
fn renders_small_entry_line() {
    let e = Entry { name: b"a.png".to_vec(), offset: 0, size: 5 };
    assert_eq!(render_line(&e), b"a.png 0 5\n".to_vec());
}

#[test]
fn renders_large_decimal_fields() {
    let e = Entry { name: b"img.png".to_vec(), offset: u64::MAX, size: 1024 };
    assert_eq!(
        render_line(&e),
        b"img.png 18446744073709551615 1024\n".to_vec()
    );
}

#[test]
fn decimal_digits_cover_all_positions() {
    let mut out: Vec<u8> = Vec::new();
    push_decimal(&mut out, 0);
    out.push(b' ');
    push_decimal(&mut out, 10);
    out.push(b' ');
    push_decimal(&mut out, 90071992547409);
    assert_eq!(out, b"0 10 90071992547409".to_vec());
}

#[test]
fn name_is_written_verbatim() {
    let e = Entry { name: b"with space.png".to_vec(), offset: 7, size: 9 };
    assert_eq!(render_line(&e), b"with space.png 7 9\n".to_vec());
}
