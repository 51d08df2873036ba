use mesh_loader::number::parse_index;
use mesh_loader::number::valid_number;
use mesh_loader::number::Number;
use mesh_loader::text::joined;
use mesh_loader::text::find;
use mesh_loader::text::is_word;
use mesh_loader::text::same_bytes;
use mesh_loader::text::split_lines;
use mesh_loader::text::split_on;
use mesh_loader::text::trimmed;

fn strings(v: Vec<Vec<u8>>) -> Vec<String> {
    v.into_iter().map(|t| String::from_utf8(t).unwrap()).collect()
}

#[test]
fn split_keeps_empty_pieces() {
    assert_eq!(strings(split_on(b"a b  c ", b' ')), vec!["a", "b", "", "c", ""]);
    assert_eq!(strings(split_on(b"", b' ')), vec![""]);
    assert_eq!(strings(split_on(b"abc", b'/')), vec!["abc"]);
    assert_eq!(strings(split_on(b"/", b'/')), vec!["", ""]);
}

#[test]
fn split_agrees_with_std() {
    for s in ["v 1 2 3", " leading", "trailing ", "a  b", "", " ", "1/2/3", "x"] {
        let expected: Vec<String> = s.split(' ').map(|t| t.to_string()).collect();
        assert_eq!(strings(split_on(s.as_bytes(), b' ')), expected);
    }
}

#[test]
fn lines_end_at_line_feeds() {
    assert_eq!(strings(split_lines(b"a\nb\n")), vec!["a", "b"]);
    assert_eq!(strings(split_lines(b"a\nb")), vec!["a", "b"]);
    assert_eq!(strings(split_lines(b"a\r\nb\r\n")), vec!["a", "b"]);
    assert_eq!(strings(split_lines(b"a\n\nb")), vec!["a", "", "b"]);
    assert_eq!(strings(split_lines(b"\n")), vec![""]);
    assert!(split_lines(b"").is_empty());
}

#[test]
fn lines_agree_with_std() {
    for s in ["", "\n", "a", "a\n", "a\r", "a\r\n", "a\rb\n", "\r\n\r\n", "a\n\r", "a\nb\r", "\r"] {
        let expected: Vec<String> = s.lines().map(|t| t.to_string()).collect();
        assert_eq!(strings(split_lines(s.as_bytes())), expected, "{s:?}");
    }
}

#[test]
fn trim_removes_white_space_at_both_ends() {
    assert_eq!(trimmed(b"  a b \t\r"), b"a b".to_vec());
    assert_eq!(trimmed(b"\x0b\x0ca\n"), b"a".to_vec());
    assert_eq!(trimmed(b"   "), Vec::<u8>::new());
    assert_eq!(trimmed(b""), Vec::<u8>::new());
    assert_eq!(trimmed(b"a"), b"a".to_vec());
}

#[test]
fn trim_agrees_with_std() {
    let spaces = [
        '\u{9}', '\u{a}', '\u{b}', '\u{c}', '\u{d}', ' ', '\u{85}', '\u{a0}', '\u{1680}',
        '\u{2000}', '\u{2001}', '\u{2005}', '\u{200a}', '\u{2028}', '\u{2029}', '\u{202f}',
        '\u{205f}', '\u{3000}',
    ];
    for c in spaces {
        assert!(c.is_whitespace());
        let s = format!("{c}{c}f 1 2 3{c}");
        assert_eq!(trimmed(s.as_bytes()), s.trim().as_bytes().to_vec(), "{c:?}");
        let s = format!("{c}");
        assert_eq!(trimmed(s.as_bytes()), Vec::<u8>::new(), "{c:?}");
    }
    let others = ['\u{200b}', '\u{2060}', '\u{feff}', '\u{180e}', '\u{84}', '\u{a1}', 'é', '€'];
    for c in others {
        assert!(!c.is_whitespace());
        let s = format!(" {c} v {c}\t");
        assert_eq!(trimmed(s.as_bytes()), s.trim().as_bytes().to_vec(), "{c:?}");
    }
}

#[test]
fn find_gives_the_first_place_or_the_length() {
    assert_eq!(find(b"abcabc", 0, b'c'), 2);
    assert_eq!(find(b"abcabc", 3, b'c'), 5);
    assert_eq!(find(b"abcabc", 0, b'x'), 6);
    assert_eq!(find(b"abc", 3, b'a'), 3);
}

#[test]
fn bytes_are_compared_and_joined() {
    assert!(same_bytes(b"abc", b"abc"));
    assert!(!same_bytes(b"abc", b"abd"));
    assert!(!same_bytes(b"abc", b"ab"));
    assert!(is_word(b"usemtl", "usemtl"));
    assert!(!is_word(b"Usemtl", "usemtl"));
    assert_eq!(joined(b"material/", b"cube.mtl"), b"material/cube.mtl".to_vec());
}

#[test]
fn numbers_follow_the_decimal_grammar() {
    for s in [
        "0", "12", "12.", ".5", "1.5", "-1", "+1", "1e5", "1E5", "1e+5", "1e-5", "2.5E10", "5.",
        "inf", "-inf", "+infinity", "NaN", "nan", "INF", "Infinity", "-.5e-3", "007", "0.0",
        "32.0",
    ] {
        assert!(valid_number(s.as_bytes()), "{s:?}");
    }
    for s in [
        "", "+", "-", ".", "e5", "1e", "1e+", "1.2.3", "1 ", " 1", "1f", "0x10", "--1", "+-1",
        "1e5.0", "in", "infinit", "nane", "1_000", "e", ".e5", "1..", "1,5",
    ] {
        assert!(!valid_number(s.as_bytes()), "{s:?}");
    }
}

#[test]
fn numbers_are_what_the_standard_library_reads() {
    for s in [
        "0", "12.", ".5", "-1", "1e5", "1e", "inf", "nan", "+", "", ".", "1.2.3", "-.5e-3", "e5",
        "infinity", "+NaN", "1e+", "٣", "1e-0", "0e0", ".0e+00", "-", "+.", "-.e1",
    ] {
        assert_eq!(valid_number(s.as_bytes()), s.parse::<f32>().is_ok(), "{s:?}");
    }
}

#[test]
fn number_keeps_the_text_it_was_read_from() {
    let n = Number::parse(b"-1.25e3").unwrap();
    assert_eq!(n.text(), b"-1.25e3");
    assert_eq!(n.clone().text(), b"-1.25e3");
    assert!(Number::parse(b"1.25x").is_none());
}

#[test]
fn indices_are_unsigned_decimals() {
    assert_eq!(parse_index(b"0"), Some(0));
    assert_eq!(parse_index(b"42"), Some(42));
    assert_eq!(parse_index(b"+42"), Some(42));
    assert_eq!(parse_index(b"0042"), Some(42));
    assert_eq!(parse_index(b"4294967295"), Some(u32::MAX));
    assert_eq!(parse_index(b"4294967296"), None);
    assert_eq!(parse_index(b"99999999999999999999999"), None);
    assert_eq!(parse_index(b""), None);
    assert_eq!(parse_index(b"+"), None);
    assert_eq!(parse_index(b"-1"), None);
    assert_eq!(parse_index(b"1a"), None);
    assert_eq!(parse_index(b"++1"), None);
}

#[test]
fn indices_are_what_the_standard_library_reads() {
    for s in ["0", "+7", "-7", "", "+", "12a", "4294967295", "4294967296", " 1", "1 ", "00"] {
        assert_eq!(parse_index(s.as_bytes()), s.parse::<u32>().ok(), "{s:?}");
    }
}
