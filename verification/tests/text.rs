use heaptrace::text::{chars_of, is_whitespace, same_text, split, split_fields, string_of, trim};

fn letters(s: &str) -> Vec<char> {
    s.chars().collect()
}

fn strings(parts: &[&[char]]) -> Vec<String> {
    parts.iter().map(|part| part.iter().collect()).collect()
}

#[test]
fn white_space_is_what_unicode_says() {
    let spaces = [
        '\u{9}', '\u{a}', '\u{b}', '\u{c}', '\u{d}', ' ', '\u{85}', '\u{a0}', '\u{1680}',
        '\u{2000}', '\u{2001}', '\u{2002}', '\u{2003}', '\u{2004}', '\u{2005}', '\u{2006}',
        '\u{2007}', '\u{2008}', '\u{2009}', '\u{200a}', '\u{2028}', '\u{2029}', '\u{202f}',
        '\u{205f}', '\u{3000}',
    ];
    for c in spaces {
        assert!(is_whitespace(c), "{:?}", c);
    }
    for c in ['a', '0', ',', '\u{0}', '\u{8}', '\u{e}', '\u{1f}', '!', '\u{84}', '\u{86}',
        '\u{9f}', '\u{a1}', '\u{180e}', '\u{1fff}', '\u{200b}', '\u{200c}', '\u{2027}',
        '\u{202a}', '\u{2060}', '\u{2fff}', '\u{3001}', '\u{feff}', '\u{10ffff}']
    {
        assert!(!is_whitespace(c), "{:?}", c);
    }
}

#[test]
fn white_space_agrees_with_std_everywhere() {
    let mut code: u32 = 0;
    while code <= 0x10ffff {
        if let Some(c) = char::from_u32(code) {
            assert_eq!(is_whitespace(c), c.is_whitespace(), "{:x}", code);
        }
        code += 1;
    }
}

#[test]
fn trim_takes_white_space_from_both_ends() {
    let cases = [
        ("", ""),
        (" ", ""),
        (" \t\r\n ", ""),
        ("a", "a"),
        ("  a", "a"),
        ("a  ", "a"),
        ("  a  ", "a"),
        (" a b ", "a b"),
        ("\u{3000}a\u{a0}b\u{2003}", "a\u{a0}b"),
        ("\ta,b\r", "a,b"),
        ("\u{200b} a", "\u{200b} a"),
    ];
    for (given, wanted) in cases {
        let given = letters(given);
        assert_eq!(trim(&given), &letters(wanted)[..]);
    }
}

#[test]
fn trim_agrees_with_std() {
    for given in ["", "   ", " x", "x ", " x y  z ", "\n\n", "\u{85}q\u{1680}", "no space"] {
        let chars = letters(given);
        let trimmed: String = trim(&chars).iter().collect();
        assert_eq!(trimmed, given.trim());
    }
}

#[test]
fn split_gives_one_piece_more_than_separators() {
    let cases: [(&str, &[&str]); 9] = [
        ("", &[""]),
        ("a", &["a"]),
        (",", &["", ""]),
        ("a,b", &["a", "b"]),
        ("a,b,c", &["a", "b", "c"]),
        (",a", &["", "a"]),
        ("a,", &["a", ""]),
        ("a,,b", &["a", "", "b"]),
        (",,,", &["", "", "", ""]),
    ];
    for (given, wanted) in cases {
        let chars = letters(given);
        assert_eq!(strings(&split(&chars, ',')), wanted);
    }
}

#[test]
fn split_agrees_with_std() {
    for given in ["", "x", "a\nb", "\n", "a\n", "\na", "a\n\nb\n", "one, two\nthree"] {
        let chars = letters(given);
        let wanted: Vec<String> = given.split('\n').map(|piece| piece.to_string()).collect();
        assert_eq!(strings(&split(&chars, '\n')), wanted);
    }
}

#[test]
fn split_keeps_every_character() {
    let chars = letters("ab,c\u{e9},,d");
    let parts = split(&chars, ',');
    let joined: Vec<String> = strings(&parts);
    assert_eq!(joined.join(","), "ab,c\u{e9},,d");
}

#[test]
fn fields_are_split_at_commas_and_trimmed() {
    let cases: [(&str, &[&str]); 7] = [
        ("", &[""]),
        ("   ", &[""]),
        ("EndHeader", &["EndHeader"]),
        (" EndHeader \r", &["EndHeader"]),
        ("a, b ,c", &["a", "b", "c"]),
        (" a b , c d ", &["a b", "c d"]),
        (
            "Stack, TimeStamp,   ThreadID, No., Address, Image!Function",
            &["Stack", "TimeStamp", "ThreadID", "No.", "Address", "Image!Function"],
        ),
    ];
    for (given, wanted) in cases {
        let chars = letters(given);
        assert_eq!(strings(&split_fields(&chars)), wanted);
    }
}

#[test]
fn same_text_compares_all_characters() {
    assert!(same_text(&letters("Stack"), "Stack"));
    assert!(same_text(&letters(""), ""));
    assert!(same_text(&letters("caf\u{e9}"), "caf\u{e9}"));
    assert!(!same_text(&letters("Stack"), "Stac"));
    assert!(!same_text(&letters("Stac"), "Stack"));
    assert!(!same_text(&letters("stack"), "Stack"));
    assert!(!same_text(&letters(""), "Stack"));
    assert!(!same_text(&letters("Stack"), ""));
    assert!(!same_text(&letters("Stack "), "Stack"));
    assert!(!same_text(&letters("Stacj"), "Stack"));
}

#[test]
fn characters_and_strings_go_both_ways() {
    for text in ["", "a", "moduleA!funcA", "caf\u{e9} \u{1f600}\u{fffd}"] {
        let chars = chars_of(text);
        assert_eq!(chars, letters(text));
        assert_eq!(string_of(&chars), text);
    }
    assert_eq!(chars_of("\u{e9}").len(), 1);
    assert_eq!(string_of(&['a', 'b']).len(), 2);
}
