use herdr::text::{
    copy_all, decimal_text, has_prefix, has_suffix, head_before, rest_after, same_text, split, trim,
    without_leading,
};

#[test]
fn white_space_is_that_of_unicode() {
    for code in 0..=0xffffu32 {
        if let Some(c) = char::from_u32(code) {
            let mut padded = String::from(c);
            padded.push('x');
            padded.push(c);
            assert_eq!(trim(&padded), padded.trim());
        }
    }
}

#[test]
fn trimming_keeps_what_is_inside() {
    for sample in ["", " ", "\t\u{3000} ", "a", " a b ", "a  ", "\n\na"] {
        assert_eq!(trim(sample), sample.trim());
    }
}

#[test]
fn splitting_keeps_empty_pieces() {
    for sample in ["", ",", "a", "a,b", ",a,,b,", "\u{e9},\u{e8}"] {
        let expected: Vec<String> = sample.split(',').map(|piece| piece.to_string()).collect();
        assert_eq!(split(sample, ','), expected);
        assert_eq!(split(sample, ',').join(","), sample);
    }
}

#[test]
fn decimals_have_no_leading_zeros() {
    for n in 0..=u16::MAX {
        assert_eq!(decimal_text(n), n.to_string());
    }
}

#[test]
fn prefixes_and_suffixes() {
    assert!(has_prefix("abc", ""));
    assert!(has_prefix("abc", "abc"));
    assert!(!has_prefix("abc", "abcd"));
    assert!(!has_prefix("abc", "b"));
    assert!(has_suffix("abc", ""));
    assert!(has_suffix("a\u{e9}c", "\u{e9}c"));
    assert!(!has_suffix("abc", "xabc"));
    assert!(!has_suffix("abc", "b"));
}

#[test]
fn parts_around_a_mark() {
    assert_eq!(rest_after("a://b://c", "://"), Some("b://c".to_string()));
    assert_eq!(rest_after("a:/b", "://"), None);
    assert_eq!(rest_after("a://", "://"), Some(String::new()));
    assert_eq!(rest_after("", "x"), None);
    assert_eq!(rest_after("ab", ""), Some("ab".to_string()));
    assert_eq!(head_before("a.b.c", '.'), "a");
    assert_eq!(head_before("abc", '.'), "abc");
    assert_eq!(head_before("", '.'), "");
    assert_eq!(without_leading("//a/", '/'), "a/");
    assert_eq!(without_leading("//", '/'), "");
}

#[test]
fn texts_are_compared_and_copied_by_their_characters() {
    assert!(same_text("\u{e9}", "\u{e9}"));
    assert!(!same_text("e\u{301}", "\u{e9}"));
    assert!(!same_text("a", "ab"));
    let texts = vec!["a".to_string(), String::new()];
    assert_eq!(copy_all(&texts), texts);
}
