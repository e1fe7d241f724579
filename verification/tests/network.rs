use dbc_parser::{parse_dbc_text, ByteOrder, DBCData, Message, Signal};

fn read(text: &str) -> DBCData {
    parse_dbc_text(text).expect("the patterns of the reader compile")
}

fn number(text: &str, default: f32) -> f32 {
    text.parse::<f32>().unwrap_or(default)
}

const ENGINE: &str = "BO_ 100 EngineData: 8 ECU\n SG_ RPM : 0|16@1+ (0.25,0.0) [0|8000]\nCM_ BO_ 100 \"Engine message\";\nCM_ SG_ 100 RPM \"Engine speed\";\nVAL_ 100 RPM 0 \"Idle\" 1 \"Running\";\n";

#[test]
fn engine_example_gives_the_expected_network() {
    let data = read(ENGINE);
    assert_eq!(data.messages.len(), 1);
    let m: &Message = &data.messages[0];
    assert_eq!(m.id, 100);
    assert_eq!(m.name, "EngineData");
    assert_eq!(m.dlc, 8);
    assert_eq!(m.node, "ECU");
    assert_eq!(m.comment.as_deref(), Some("Engine message"));
    assert_eq!(m.signals.len(), 1);
    let s: &Signal = &m.signals[0];
    assert_eq!(s.name, "RPM");
    assert_eq!(s.start_bit, 0);
    assert_eq!(s.length, 16);
    assert_eq!(s.byte_order, ByteOrder::LittleEndian);
    assert!(!s.is_signed);
    assert_eq!(s.scale, "0.25");
    assert_eq!(s.offset, "0.0");
    assert_eq!(s.min, "0");
    assert_eq!(s.max, "8000");
    assert_eq!(number(&s.scale, 1.0), 0.25);
    assert_eq!(number(&s.offset, 0.0), 0.0);
    assert_eq!(number(&s.min, 0.0), 0.0);
    assert_eq!(number(&s.max, 0.0), 8000.0);
    assert_eq!(s.comment.as_deref(), Some("Engine speed"));
    let labels = s.value_descriptions.as_ref().expect("a value table");
    assert_eq!(labels.len(), 2);
    assert_eq!(labels.get(&0).map(String::as_str), Some("Idle"));
    assert_eq!(labels.get(&1).map(String::as_str), Some("Running"));
}

#[test]
fn derived_fields_follow_the_identifier() {
    let data = read("BO_ 217056256 EEC1: 8 Engine\n");
    let m = &data.messages[0];
    assert_eq!(m.id, 0x0CF0_0400);
    assert_eq!(m.pgn, 0xF004);
    assert_eq!(m.sa, 0);
    assert_eq!(m.priority, 3);
    let data = read("BO_ 2365531687 X: 8 N\n");
    let m = &data.messages[0];
    assert_eq!(m.pgn, (2365531687u32 >> 8) & 0x3FFFF);
    assert_eq!(m.sa, 2365531687u32 & 0xFF);
    assert_eq!(m.priority, (2365531687u32 >> 26) & 0x7);
}

#[test]
fn empty_text_gives_no_message() {
    assert_eq!(read("").messages.len(), 0);
    assert_eq!(read("\n\n").messages.len(), 0);
    assert_eq!(read("VERSION \"\"\nNS_ :\n").messages.len(), 0);
}

#[test]
fn signals_keep_source_order_and_unmatched_lines_add_none() {
    let text = "BO_ 1 M: 8 N\n SG_ A : 0|8@1+ (1,0) [0|255]\n SG_ broken line\n\tSG_ B : 8|4@0- (0.5,-10) [-10|-2.5]\n SG_ C : 12|4@1+ (1,0) [0|15]\n";
    let data = read(text);
    assert_eq!(data.messages.len(), 1);
    let names: Vec<&str> = data.messages[0].signals.iter().map(|s| s.name.as_str()).collect();
    assert_eq!(names, vec!["A", "B", "C"]);
    let b = &data.messages[0].signals[1];
    assert_eq!(b.start_bit, 8);
    assert_eq!(b.length, 4);
    assert_eq!(b.byte_order, ByteOrder::BigEndian);
    assert!(b.is_signed);
    assert_eq!(number(&b.scale, 1.0), 0.5);
    assert_eq!(number(&b.offset, 0.0), -10.0);
    assert_eq!(number(&b.min, 0.0), -10.0);
    assert_eq!(number(&b.max, 0.0), -2.5);
    assert_eq!(b.comment, None);
    assert_eq!(b.value_descriptions, None);
}

#[test]
fn signals_attach_to_the_message_that_is_open() {
    let text = "BO_ 1 First: 8 N\n SG_ A : 0|8@1+ (1,0) [0|255]\nBO_ 2 Second: 4 N\n SG_ B : 0|8@1+ (1,0) [0|255]\n SG_ C : 8|8@1+ (1,0) [0|255]\n";
    let data = read(text);
    assert_eq!(data.messages.len(), 2);
    assert_eq!(data.messages[0].name, "First");
    assert_eq!(data.messages[0].signals.len(), 1);
    assert_eq!(data.messages[1].name, "Second");
    assert_eq!(data.messages[1].dlc, 4);
    assert_eq!(data.messages[1].signals.len(), 2);
}

#[test]
fn comment_reaches_the_message_that_is_still_open() {
    let text = "BO_ 5 Open: 8 N\nCM_ BO_ 5 \"early\";\n SG_ A : 0|8@1+ (1,0) [0|255]\nCM_ SG_ 5 A \"also early\";\nVAL_ 5 A 1 \"ON\" ;\n SG_ B : 8|8@1+ (1,0) [0|255]\n";
    let data = read(text);
    assert_eq!(data.messages.len(), 1);
    let m = &data.messages[0];
    assert_eq!(m.comment.as_deref(), Some("early"));
    assert_eq!(m.signals.len(), 2);
    assert_eq!(m.signals[0].comment.as_deref(), Some("also early"));
    assert_eq!(
        m.signals[0].value_descriptions.as_ref().and_then(|v| v.get(&1)).map(String::as_str),
        Some("ON")
    );
    assert_eq!(m.signals[1].comment, None);
}

#[test]
fn comment_reaches_a_message_that_is_complete() {
    let text = "BO_ 5 Done: 8 N\nBO_ 6 Open: 8 N\nCM_ BO_ 5 \"late\";\n";
    let data = read(text);
    assert_eq!(data.messages[0].comment.as_deref(), Some("late"));
    assert_eq!(data.messages[1].comment, None);
}

#[test]
fn later_comment_replaces_the_earlier_one() {
    let text = "BO_ 5 M: 8 N\nCM_ BO_ 5 \"one\";\nCM_ BO_ 5 \"two\";\n";
    assert_eq!(read(text).messages[0].comment.as_deref(), Some("two"));
}

#[test]
fn duplicate_value_keeps_the_last_label() {
    let text = "BO_ 7 M: 8 N\n SG_ S : 0|8@1+ (1,0) [0|255]\nVAL_ 7 S 0 \"OFF\" 0 \"ALT\" 1 \"ON\";\n";
    let data = read(text);
    let labels = data.messages[0].signals[0].value_descriptions.as_ref().expect("a value table");
    assert_eq!(labels.len(), 2);
    assert_eq!(labels.get(&0).map(String::as_str), Some("ALT"));
    assert_eq!(labels.get(&1).map(String::as_str), Some("ON"));
}

#[test]
fn later_value_table_replaces_the_earlier_one() {
    let text = "BO_ 7 M: 8 N\n SG_ S : 0|8@1+ (1,0) [0|255]\nVAL_ 7 S 0 \"OFF\" 1 \"ON\";\nVAL_ 7 S 2 \"ERROR\";\n";
    let data = read(text);
    let labels = data.messages[0].signals[0].value_descriptions.as_ref().expect("a value table");
    assert_eq!(labels.len(), 1);
    assert_eq!(labels.get(&2).map(String::as_str), Some("ERROR"));
}

#[test]
fn value_table_without_pairs_gives_an_empty_mapping() {
    let text = "BO_ 7 M: 8 N\n SG_ S : 0|8@1+ (1,0) [0|255]\nVAL_ 7 S ;\n";
    let data = read(text);
    let labels = data.messages[0].signals[0].value_descriptions.as_ref().expect("a value table");
    assert!(labels.is_empty());
}

#[test]
fn value_table_without_semicolon_is_passed_over() {
    let text = "BO_ 7 M: 8 N\n SG_ S : 0|8@1+ (1,0) [0|255]\nVAL_ 7 S 0 \"OFF\"\n";
    assert_eq!(read(text).messages[0].signals[0].value_descriptions, None);
}

#[test]
fn trailing_message_is_part_of_the_network() {
    let data = read("BO_ 1 A: 8 N\nBO_ 2 B: 8 N");
    assert_eq!(data.messages.len(), 2);
    assert_eq!(data.messages[1].id, 2);
    assert_eq!(data.messages[1].node, "N");
    let data = read("BO_ 9 Last: 2 Node\n SG_ S : 0|8@1+ (1,0) [0|255]");
    assert_eq!(data.messages.len(), 1);
    assert_eq!(data.messages[0].signals.len(), 1);
}

#[test]
fn signal_before_any_message_is_ignored() {
    let data = read(" SG_ S : 0|8@1+ (1,0) [0|255]\nBO_ 1 A: 8 N\n");
    assert_eq!(data.messages.len(), 1);
    assert_eq!(data.messages[0].signals.len(), 0);
    assert_eq!(read(" SG_ S : 0|8@1+ (1,0) [0|255]\n").messages.len(), 0);
}

#[test]
fn short_message_line_is_skipped() {
    let data = read("BO_ 1 A:\nBO_ 2 B: 8 N\n");
    assert_eq!(data.messages.len(), 1);
    assert_eq!(data.messages[0].id, 2);
    assert_eq!(data.messages[0].name, "B");
}

#[test]
fn short_message_line_still_closes_the_open_message() {
    let data = read("BO_ 1 A: 8 N\nBO_ 2 B:\n SG_ S : 0|8@1+ (1,0) [0|255]\n");
    assert_eq!(data.messages.len(), 1);
    assert_eq!(data.messages[0].id, 1);
    assert_eq!(data.messages[0].signals.len(), 0);
}

#[test]
fn unreadable_numbers_take_their_defaults() {
    let data = read("BO_ abc Name: x Node\nBO_ 4294967296 Big: 256 Node\nBO_ +7 Plus: 08 Node\n");
    assert_eq!(data.messages.len(), 3);
    assert_eq!(data.messages[0].id, 0);
    assert_eq!(data.messages[0].dlc, 8);
    assert_eq!(data.messages[1].id, 0);
    assert_eq!(data.messages[1].dlc, 8);
    assert_eq!(data.messages[2].id, 7);
    assert_eq!(data.messages[2].dlc, 8);
    let data = read("BO_ 1 M: 8 N\n SG_ S : 99999999999|4294967295@1+ (.,-) [1.2.3|5.]\n");
    let s = &data.messages[0].signals[0];
    assert_eq!(s.start_bit, 0);
    assert_eq!(s.length, 4294967295);
    assert_eq!(number(&s.scale, 1.0), 1.0);
    assert_eq!(number(&s.offset, 0.0), 0.0);
    assert_eq!(number(&s.min, 0.0), 0.0);
    assert_eq!(number(&s.max, 0.0), 5.0);
}

#[test]
fn name_loses_all_trailing_colons() {
    let data = read("BO_ 1 Name::: 8 N\nBO_ 2 Na:me 8 N\nBO_ 3 : 8 N\n");
    assert_eq!(data.messages[0].name, "Name");
    assert_eq!(data.messages[1].name, "Na:me");
    assert_eq!(data.messages[2].name, "");
}

#[test]
fn dangling_references_are_dropped() {
    let text = "CM_ BO_ 1 \"too early\";\nBO_ 1 M: 8 N\n SG_ S : 0|8@1+ (1,0) [0|255]\nCM_ BO_ 2 \"nobody\";\nCM_ SG_ 1 T \"no signal\";\nCM_ SG_ 2 S \"no message\";\nVAL_ 1 T 0 \"x\";\nVAL_ 2 S 0 \"x\";\n";
    let data = read(text);
    assert_eq!(data.messages.len(), 1);
    assert_eq!(data.messages[0].comment, None);
    assert_eq!(data.messages[0].signals[0].comment, None);
    assert_eq!(data.messages[0].signals[0].value_descriptions, None);
}

#[test]
fn duplicate_identifiers_are_both_kept_and_the_first_is_found() {
    let text = "BO_ 3 One: 8 N\n SG_ S : 0|8@1+ (1,0) [0|255]\nBO_ 3 Two: 8 N\n SG_ S : 0|8@1+ (1,0) [0|255]\nCM_ BO_ 3 \"c\";\nCM_ SG_ 3 S \"d\";\n";
    let data = read(text);
    assert_eq!(data.messages.len(), 2);
    assert_eq!(data.messages[0].comment.as_deref(), Some("c"));
    assert_eq!(data.messages[1].comment, None);
    assert_eq!(data.messages[0].signals[0].comment.as_deref(), Some("d"));
    assert_eq!(data.messages[1].signals[0].comment, None);
}

#[test]
fn carriage_returns_end_lines_too() {
    let data = read("BO_ 1 A: 8 ECU\r\n SG_ S : 0|8@1+ (1,0) [0|255]\r\nCM_ BO_ 1 \"text\";\r\n");
    assert_eq!(data.messages.len(), 1);
    assert_eq!(data.messages[0].node, "ECU");
    assert_eq!(data.messages[0].signals.len(), 1);
    assert_eq!(data.messages[0].comment.as_deref(), Some("text"));
}

#[test]
fn message_line_may_not_be_indented_but_signal_line_may() {
    let data = read(" BO_ 1 A: 8 N\nBO_ 2 B: 8 N\nSG_ S : 0|8@1+ (1,0) [0|255]\n   SG_ T : 0|8@1+ (1,0) [0|255]\n CM_ BO_ 2 \"indented\";\n");
    assert_eq!(data.messages.len(), 1);
    assert_eq!(data.messages[0].id, 2);
    assert_eq!(data.messages[0].signals.len(), 2);
    assert_eq!(data.messages[0].comment, None);
}
