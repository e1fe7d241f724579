use dbc_parser::model::{pgn, priority, sa};
use dbc_parser::pattern::{capture_all_groups, capture_groups, found_or_rejected};
use dbc_parser::record::{
    classify, message_from_line, number_and_text_from_groups, number_name_and_text_from_groups,
    signal_from_groups, value_map_from_pairs, LineKind, SIGNAL_PATTERN, VALUE_PAIR_PATTERN,
};
use dbc_parser::text::{
    colons_start, is_white_space, next_line, parse_unsigned, parse_unsigned_or, skip_spaces,
    skip_word, split_tokens, starts_with, text_of, to_chars,
};
use dbc_parser::{ByteOrder, ParseError, Parser};

fn chars(text: &str) -> Vec<char> {
    text.chars().collect()
}

fn some(text: &str) -> Option<String> {
    Some(text.to_string())
}

#[test]
fn identifier_fields_are_masked_exactly() {
    let id: u32 = 0x0CF0_0400;
    assert_eq!(pgn(id), 0xF004);
    assert_eq!(sa(id), 0x00);
    assert_eq!(priority(id), 3);
    assert_eq!(pgn(u32::MAX), 0x3FFFF);
    assert_eq!(sa(u32::MAX), 0xFF);
    assert_eq!(priority(u32::MAX), 7);
    assert_eq!(pgn(0x123), 1);
    assert_eq!(sa(0x123), 0x23);
    assert_eq!(priority(0x123), 0);
}

#[test]
fn white_space_is_the_unicode_property() {
    for c in [' ', '\t', '\n', '\r', '\u{0B}', '\u{0C}', '\u{85}', '\u{A0}', '\u{1680}', '\u{2000}', '\u{200A}', '\u{2028}', '\u{2029}', '\u{202F}', '\u{205F}', '\u{3000}'] {
        assert!(is_white_space(c));
    }
    for c in ['a', '_', '0', '\u{200B}', '\u{180E}', '\u{FEFF}', '\u{1F}'] {
        assert!(!is_white_space(c));
    }
    for n in 0u32..0x11_0000 {
        if let Some(c) = char::from_u32(n) {
            assert_eq!(is_white_space(c), c.is_whitespace());
        }
    }
}

#[test]
fn tokens_are_the_runs_between_white_space() {
    for text in ["", "   ", "a", " a", "a ", "BO_ 100 EngineData: 8 ECU", "\ta\u{A0}b  c\r", "x\u{3000}y"] {
        let s = chars(text);
        let spans = split_tokens(&s);
        let got: Vec<String> = spans.iter().map(|&(a, b)| s[a..b].iter().collect()).collect();
        let want: Vec<String> = text.split_whitespace().map(str::to_string).collect();
        assert_eq!(got, want);
    }
    let s = chars("  ab  c");
    assert_eq!(split_tokens(&s), vec![(2, 4), (6, 7)]);
    assert_eq!(skip_spaces(&s, 0), 2);
    assert_eq!(skip_spaces(&s, 2), 2);
    assert_eq!(skip_word(&s, 2), 4);
    assert_eq!(skip_word(&s, 6), 7);
}

#[test]
fn lines_end_at_line_feeds() {
    for text in ["", "a", "a\n", "a\nb", "a\r\nb\r\n", "a\r", "a\r\r\n", "\n", "\n\n", "\r\n", "a\n\nb\n"] {
        let s = chars(text);
        let mut got: Vec<String> = Vec::new();
        let mut at = 0;
        while at < s.len() {
            let (end, next) = next_line(&s, at);
            got.push(s[at..end].iter().collect());
            at = next;
        }
        let want: Vec<String> = text.lines().map(str::to_string).collect();
        assert_eq!(got, want);
    }
    assert_eq!(next_line(&chars("ab\r\ncd"), 0), (2, 4));
    assert_eq!(next_line(&chars("ab\r\ncd"), 4), (6, 6));
}

#[test]
fn unsigned_numbers_are_read_as_the_standard_library_reads_them() {
    for text in ["", "+", "-", "0", "7", "+7", "-7", "007", "4294967295", "4294967296", "99999999999999999999999", "00000000000000000000000005", "12a", "a12", " 12", "1 2", "++1", "\u{0661}\u{0662}", "255", "256"] {
        let s = chars(text);
        assert_eq!(parse_unsigned(&s, u32::MAX), text.parse::<u32>().ok());
        assert_eq!(parse_unsigned(&s, 255).map(|n| n as u8), text.parse::<u8>().ok());
    }
    assert_eq!(parse_unsigned(&chars("4294967295"), u32::MAX), Some(4294967295));
    assert_eq!(parse_unsigned(&chars("4294967296"), u32::MAX), None);
    assert_eq!(parse_unsigned_or(&chars("x"), 255, 8), 8);
    assert_eq!(parse_unsigned_or(&chars("300"), 255, 8), 8);
    assert_eq!(parse_unsigned_or(&chars("3"), 255, 8), 3);
}

#[test]
fn trailing_colons_are_found() {
    assert_eq!(colons_start(&chars("Name:")), 4);
    assert_eq!(colons_start(&chars("Name")), 4);
    assert_eq!(colons_start(&chars("Na:me::")), 5);
    assert_eq!(colons_start(&chars(":::")), 0);
    assert_eq!(colons_start(&chars("")), 0);
}

#[test]
fn characters_and_strings_convert_both_ways() {
    assert_eq!(to_chars("a\u{E9}\u{1F600}"), vec!['a', '\u{E9}', '\u{1F600}']);
    assert_eq!(text_of(&['a', '\u{E9}', '\u{1F600}']), "a\u{E9}\u{1F600}");
    assert_eq!(text_of(&[]), "");
    assert!(starts_with(&chars("BO_ 1"), "BO_"));
    assert!(starts_with(&chars("BO_"), "BO_"));
    assert!(starts_with(&chars("x"), ""));
    assert!(!starts_with(&chars("BO"), "BO_"));
    assert!(!starts_with(&chars(" BO_"), "BO_"));
}

#[test]
fn lines_are_told_apart_by_their_first_characters() {
    assert_eq!(classify(&chars("BO_ 1 A: 8 N")), LineKind::Message);
    assert_eq!(classify(&chars("BO_")), LineKind::Message);
    assert_eq!(classify(&chars("BO_TX_BU_ 1 : A,B;")), LineKind::Message);
    assert_eq!(classify(&chars(" BO_ 1 A: 8 N")), LineKind::Other);
    assert_eq!(classify(&chars(" SG_ S : 0|8@1+ (1,0) [0|255]")), LineKind::Signal);
    assert_eq!(classify(&chars("SG_")), LineKind::Signal);
    assert_eq!(classify(&chars("\u{A0}\tSG_MUL_VAL_ 1")), LineKind::Signal);
    assert_eq!(classify(&chars("CM_ BO_ 1 \"x\";")), LineKind::MessageComment);
    assert_eq!(classify(&chars("CM_ SG_ 1 S \"x\";")), LineKind::SignalComment);
    assert_eq!(classify(&chars("CM_  BO_ 1 \"x\";")), LineKind::Other);
    assert_eq!(classify(&chars("CM_ \"network\";")), LineKind::Other);
    assert_eq!(classify(&chars("VAL_ 1 S 0 \"x\";")), LineKind::ValueTable);
    assert_eq!(classify(&chars("VAL_TABLE_ T 0 \"x\";")), LineKind::ValueTable);
    assert_eq!(classify(&chars(" VAL_ 1 S 0 \"x\";")), LineKind::Other);
    assert_eq!(classify(&chars("")), LineKind::Other);
    assert_eq!(classify(&chars("VERSION \"1\"")), LineKind::Other);
}

#[test]
fn message_line_gives_its_message() {
    let m = message_from_line(&chars("BO_ 2365531687 EEC1: 8 Engine extra tokens")).expect("a message");
    assert_eq!(m.id, 2365531687);
    assert_eq!(m.name, "EEC1");
    assert_eq!(m.dlc, 8);
    assert_eq!(m.node, "Engine");
    assert_eq!(m.pgn, (2365531687u32 >> 8) & 0x3FFFF);
    assert_eq!(m.sa, 0x27);
    assert_eq!(m.priority, 3);
    assert!(m.signals.is_empty());
    assert_eq!(m.comment, None);
    assert_eq!(message_from_line(&chars("BO_ 1 A: 8")), None);
    assert_eq!(message_from_line(&chars("BO_ 1 A:")), None);
    assert_eq!(message_from_line(&chars("")), None);
}

#[test]
fn signal_needs_all_nine_groups() {
    let groups: Vec<Option<String>> = vec![
        some("whole"), some("Speed"), some("8"), some("12"), some("0"), some("-"),
        some("0.1"), some("-5"), some("-5"), some("95.5"),
    ];
    let s = signal_from_groups(&groups).expect("a signal");
    assert_eq!(s.name, "Speed");
    assert_eq!(s.start_bit, 8);
    assert_eq!(s.length, 12);
    assert_eq!(s.byte_order, ByteOrder::BigEndian);
    assert!(s.is_signed);
    assert_eq!(s.scale, "0.1");
    assert_eq!(s.offset, "-5");
    assert_eq!(s.min, "-5");
    assert_eq!(s.max, "95.5");
    assert_eq!(s.comment, None);
    assert_eq!(s.value_descriptions, None);
    for missing in 1..10 {
        let mut fewer = groups.clone();
        fewer[missing] = None;
        assert_eq!(signal_from_groups(&fewer), None);
    }
    assert_eq!(signal_from_groups(&groups[..9].to_vec()), None);
    let mut whole_missing = groups.clone();
    whole_missing[0] = None;
    assert!(signal_from_groups(&whole_missing).is_some());
}

#[test]
fn numbered_records_read_their_groups() {
    let two = vec![some("w"), some("100"), some("text")];
    assert_eq!(number_and_text_from_groups(&two), Some((100, "text".to_string())));
    assert_eq!(number_and_text_from_groups(&vec![some("w"), some("99999999999"), some("t")]), Some((0, "t".to_string())));
    assert_eq!(number_and_text_from_groups(&vec![some("w"), None, some("t")]), None);
    assert_eq!(number_and_text_from_groups(&vec![some("w"), some("1")]), None);
    let three = vec![some("w"), some("100"), some("RPM"), some("text")];
    assert_eq!(
        number_name_and_text_from_groups(&three),
        Some((100, "RPM".to_string(), "text".to_string()))
    );
    assert_eq!(number_name_and_text_from_groups(&two), None);
    assert_eq!(number_name_and_text_from_groups(&vec![some("w"), some("1"), None, some("t")]), None);
}

#[test]
fn value_map_takes_pairs_in_order() {
    let pairs = vec![
        vec![some("w"), some("0"), some("OFF")],
        vec![some("w"), some("1"), some("ON")],
        vec![some("w"), None, some("lost")],
        vec![some("w"), some("0"), some("ALT")],
        vec![some("w"), some("x"), some("ZERO")],
    ];
    let labels = value_map_from_pairs(&pairs);
    assert_eq!(labels.len(), 2);
    assert_eq!(labels.get(&0).map(String::as_str), Some("ZERO"));
    assert_eq!(labels.get(&1).map(String::as_str), Some("ON"));
    assert!(value_map_from_pairs(&Vec::new()).is_empty());
}

#[test]
fn patterns_capture_the_fields_of_a_line() {
    let found = capture_groups(SIGNAL_PATTERN, "SG_ RPM : 0|16@1+ (0.25,0.0) [0|8000] \"rpm\" Vector__XXX")
        .expect("the pattern compiles")
        .expect("the line matches");
    let want: Vec<Option<String>> = vec![
        some("SG_ RPM : 0|16@1+ (0.25,0.0) [0|8000]"), some("RPM"), some("0"), some("16"),
        some("1"), some("+"), some("0.25"), some("0.0"), some("0"), some("8000"),
    ];
    assert_eq!(found, want);
    assert_eq!(capture_groups(SIGNAL_PATTERN, "SG_ RPM").expect("the pattern compiles"), None);
    assert_eq!(capture_groups("(a)|(b)", "xb").expect("the pattern compiles"), Some(vec![some("b"), None, some("b")]));
    let all = capture_all_groups(VALUE_PAIR_PATTERN, "0 \"OFF\" 1 \"ON\" 2 \"NOT AVAILABLE\" ").expect("the pattern compiles");
    assert_eq!(all.len(), 3);
    assert_eq!(all[2], vec![some("2 \"NOT AVAILABLE\""), some("2"), some("NOT AVAILABLE")]);
    assert!(capture_all_groups(VALUE_PAIR_PATTERN, "").expect("the pattern compiles").is_empty());
}

#[test]
fn refused_pattern_is_an_error() {
    assert_eq!(capture_groups("(", "text"), Err(ParseError::PatternRejected));
    assert_eq!(capture_all_groups("[", "text"), Err(ParseError::PatternRejected));
}

#[test]
fn reader_can_be_fed_line_by_line() {
    let mut p = Parser::new();
    assert!(!p.has_open_message());
    assert_eq!(p.feed_line("BO_ 1 A: 8 N"), Ok(()));
    assert!(p.has_open_message());
    assert_eq!(p.feed_line(" SG_ S : 0|8@1+ (1,0) [0|255]"), Ok(()));
    assert!(p.has_signal(1, &"S".to_string()));
    assert!(!p.has_signal(1, &"T".to_string()));
    assert!(!p.has_signal(2, &"S".to_string()));
    assert_eq!(p.feed(&chars("BO_ short")), Ok(()));
    assert!(!p.has_open_message());
    p.set_message_comment(1, "by hand".to_string());
    p.set_signal_comment(1, &"S".to_string(), "signal".to_string());
    let data = p.finish();
    assert_eq!(data.messages.len(), 1);
    assert_eq!(data.messages[0].comment.as_deref(), Some("by hand"));
    assert_eq!(data.messages[0].signals[0].comment.as_deref(), Some("signal"));
}

#[test]
fn matcher_error_becomes_the_reader_error() {
    let refused: Result<u8, regex::Error> = regex::Regex::new("(").map(|_| 1);
    assert!(refused.is_err());
    assert_eq!(found_or_rejected(refused), Err(ParseError::PatternRejected));
    let accepted: Result<bool, regex::Error> = regex::Regex::new("a+").map(|re| re.is_match("caab"));
    assert_eq!(found_or_rejected(accepted), Ok(true));
    assert_eq!(found_or_rejected::<u8>(Ok(7)), Ok(7));
}
