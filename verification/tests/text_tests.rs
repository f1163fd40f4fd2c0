use alynxis::text::{eq_ignore_ascii_case, trim};

#[test]
fn trim_removes_exactly_unicode_white_space() {
    for u in 0u32..=0x10FFFF {
        if let Some(c) = char::from_u32(u) {
            let s = format!("{c}{c}a{c}b{c}");
            assert_eq!(trim(&s), s.trim(), "U+{u:04X}");
        }
    }
}

#[test]
fn trim_of_blank_text_is_empty() {
    assert_eq!(trim(""), "");
    assert_eq!(trim(" \t\n\u{3000}\u{00A0}"), "");
    assert_eq!(trim("\u{200B}x\u{200B}"), "\u{200B}x\u{200B}");
    assert_eq!(trim("  two words  "), "two words");
}

#[test]
fn eq_ignore_ascii_case_agrees_with_std() {
    let samples = [
        "Dog", "dOG", "dog", "DÖG", "dög", "Straße", "STRASSE", "", "a", "A", "\u{1C5}", "\u{1C6}", "[", "{", "@", "`",
    ];
    for a in samples {
        for b in samples {
            assert_eq!(eq_ignore_ascii_case(a, b), a.eq_ignore_ascii_case(b), "{a:?} vs {b:?}");
        }
    }
}

#[test]
fn ascii_labels_normalize_to_their_ascii_lowercase() {
    for s in ["Dog", " DOG\t", "dog", "Is-A", "  MiXeD Case  ", "x1_Y2"] {
        assert_eq!(alynxis::worldmodel::storage::normalize_label(s), s.trim().to_ascii_lowercase());
    }
}
