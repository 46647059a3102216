use feverish::text::{chars_of, trim};

#[test]
fn trim_removes_unicode_white_space() {
    let s = chars_of("\u{3000}\t a b\u{85}\u{2009}\n");
    let t: String = trim(&s).into_iter().collect();
    assert_eq!(t, "a b");
    let kept = chars_of("\u{200B}x");
    assert_eq!(trim(&kept), kept);
}
