use dsh_desktop::text::{chars_of, decimal_string, parse_u32_range, same_text, trim_bounds, word_spans, IntParseError};

fn parse(s: &str) -> Result<u32, IntParseError> {
    let v = chars_of(s);
    parse_u32_range(&v, 0, v.len())
}

#[test]
fn decimal_text() {
    assert_eq!(decimal_string(0), "0");
    assert_eq!(decimal_string(7), "7");
    assert_eq!(decimal_string(3080), "3080");
    assert_eq!(decimal_string(u32::MAX), "4294967295");
}

#[test]
fn parse_matches_std() {
    for s in ["0", "42", "+42", "-1", "+", "-", "", "4294967295", "4294967296", "0042", "1 2", "x9", "٣"] {
        let ours = parse(s);
        let theirs = s.parse::<u32>();
        match theirs {
            Ok(v) => assert_eq!(ours, Ok(v), "{s}"),
            Err(e) => {
                let kind = match e.kind() {
                    std::num::IntErrorKind::Empty => IntParseError::Empty,
                    std::num::IntErrorKind::InvalidDigit => IntParseError::InvalidDigit,
                    std::num::IntErrorKind::PosOverflow => IntParseError::PosOverflow,
                    _ => panic!("unexpected"),
                };
                assert_eq!(ours, Err(kind), "{s}");
            }
        }
    }
}

#[test]
fn words_match_split_whitespace() {
    for s in ["", "  ", "a", " a  b\tc\r\n", "x\u{3000}y\u{a0}z", "  TCP    0.0.0.0:135  "] {
        let v = chars_of(s);
        let spans = word_spans(&v, 0, v.len());
        let ours: Vec<String> = spans.iter().map(|&(a, b)| v[a..b].iter().collect()).collect();
        let theirs: Vec<String> = s.split_whitespace().map(|w| w.to_string()).collect();
        assert_eq!(ours, theirs, "{s:?}");
    }
}

#[test]
fn trim_matches_std() {
    for s in ["", "   ", " a b ", "\u{2003}x\u{85}", "abc", "\r\n12\r"] {
        let v = chars_of(s);
        let (a, b) = trim_bounds(&v, 0, v.len());
        let ours: String = v[a..b].iter().collect();
        assert_eq!(ours, s.trim(), "{s:?}");
    }
}

#[test]
fn same_text_compares() {
    assert!(same_text("show", "show"));
    assert!(!same_text("show", "Show"));
    assert!(!same_text("quit", "quits"));
}
