use tline::csi::{csi_bold, csi_bold_blue, csi_bold_red, csi_bold_yellow, csi_reset};
use tline::{Sink, StringSink, TLine, TString};

fn plain(text: &str) -> TString {
    TString { csi: String::new(), raw: String::from(text) }
}

fn styled(csi: &str, text: &str) -> TString {
    TString { csi: String::from(csi), raw: String::from(text) }
}

#[test]
fn push_csi_single_param() {
    let mut ts = TString::default();
    ts.push_csi(&[1], 'm');
    assert_eq!(ts.csi, "\u{1b}[1m");
    assert_eq!(ts.raw, "");
}

#[test]
fn push_csi_multi_param() {
    let mut ts = TString::default();
    ts.push_csi(&[38, 5, 9], 'm');
    assert_eq!(ts.csi, "\u{1b}[38;5;9m");
}

#[test]
fn push_csi_empty_params() {
    let mut ts = TString::default();
    ts.push_csi(&[], 'K');
    assert_eq!(ts.csi, "\u{1b}[K");
}

#[test]
fn push_csi_multi_digit_param() {
    let mut ts = TString::default();
    ts.push_csi(&[10, 0, 205], 'H');
    assert_eq!(ts.csi, "\u{1b}[10;0;205H");
}

#[test]
fn push_csi_compounds_in_order() {
    let mut ts = TString::default();
    ts.push_csi(&[1], 'm');
    ts.push_csi(&[31], 'm');
    assert_eq!(ts.csi, "\u{1b}[1m\u{1b}[31m");
}

#[test]
fn style_constants() {
    assert_eq!(csi_reset(), "\u{1b}[0m\u{1b}[0m");
    assert_eq!(csi_bold(), "\u{1b}[1m");
    assert_eq!(csi_bold_red(), "\u{1b}[1m\u{1b}[38;5;9m");
    assert_eq!(csi_bold_yellow(), "\u{1b}[1m\u{1b}[33m");
    assert_eq!(csi_bold_blue(), "\u{1b}[1m\u{1b}[38;5;12m");
}

#[test]
fn starts_with_matches_prefix() {
    let ts = styled("\u{1b}[1m", "hello");
    assert!(ts.starts_with("\u{1b}[1m", "hel"));
    assert!(ts.starts_with("\u{1b}[1m", ""));
    assert!(ts.starts_with("\u{1b}[1m", "hello"));
}

#[test]
fn starts_with_rejects_other_style_or_text() {
    let ts = styled("\u{1b}[1m", "hello");
    assert!(!ts.starts_with("\u{1b}[2m", "hel"));
    assert!(!ts.starts_with("", "hel"));
    assert!(!ts.starts_with("\u{1b}[1m", "help"));
    assert!(!ts.starts_with("\u{1b}[1m", "hello!"));
}

#[test]
fn split_off_keeps_style_and_concatenates_back() {
    let mut ts = styled("\u{1b}[33m", "abcdef");
    let tail = ts.split_off(2);
    assert_eq!(ts.csi, "\u{1b}[33m");
    assert_eq!(tail.csi, "\u{1b}[33m");
    assert_eq!(ts.raw, "ab");
    assert_eq!(tail.raw, "cdef");
    let rejoined = format!("{}{}", ts.raw, tail.raw);
    assert_eq!(rejoined, "abcdef");
}

#[test]
fn split_off_at_bounds() {
    let mut head = plain("xyz");
    let tail = head.split_off(0);
    assert_eq!(head.raw, "");
    assert_eq!(tail.raw, "xyz");

    let mut head = plain("xyz");
    let tail = head.split_off(3);
    assert_eq!(head.raw, "xyz");
    assert_eq!(tail.raw, "");
}

#[test]
fn split_off_counts_characters_not_bytes() {
    let mut ts = plain("héllo");
    let tail = ts.split_off(2);
    assert_eq!(ts.raw, "hé");
    assert_eq!(tail.raw, "llo");
}

#[test]
fn draw_plain_run_is_verbatim() {
    let ts = plain("plain text");
    let mut sink = StringSink::new();
    ts.draw(&mut sink).unwrap();
    assert_eq!(sink.data, "plain text");
}

#[test]
fn draw_styled_run_emits_prefix_text_reset() {
    let ts = styled("\u{1b}[1m\u{1b}[31m", "warm");
    let mut sink = StringSink::new();
    ts.draw(&mut sink).unwrap();
    assert_eq!(sink.data, "\u{1b}[1m\u{1b}[31mwarm\u{1b}[0m\u{1b}[0m");
}

#[test]
fn draw_styled_run_with_empty_text_still_resets() {
    let ts = styled("\u{1b}[1m", "");
    let mut sink = StringSink::new();
    ts.draw(&mut sink).unwrap();
    assert_eq!(sink.data, "\u{1b}[1m\u{1b}[0m\u{1b}[0m");
}

#[test]
fn line_draw_renders_runs_in_order() {
    let line = TLine {
        strings: vec![styled("\u{1b}[1m", "A"), plain("B"), styled("\u{1b}[33m", "C")],
    };
    let mut sink = StringSink::new();
    line.draw(&mut sink).unwrap();
    assert_eq!(
        sink.data,
        "\u{1b}[1mA\u{1b}[0m\u{1b}[0mB\u{1b}[33mC\u{1b}[0m\u{1b}[0m"
    );
}

#[test]
fn empty_line_renders_nothing() {
    let line = TLine::default();
    let mut sink = StringSink::new();
    line.draw(&mut sink).unwrap();
    assert_eq!(sink.data, "");
}

#[test]
fn string_sink_accumulates() {
    let mut sink = StringSink::new();
    sink.write_str("one ").unwrap();
    sink.write_str("two").unwrap();
    assert_eq!(sink.data, "one two");
}
