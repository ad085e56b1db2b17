//! A sink that fails on the Nth write: the failure surfaces as an error,
//! nothing panics, and the line stays valid and re-renderable.

use tline::{RenderError, Sink, StringSink, TLine, TString};

struct FailingSink {
    writes_before_failure: usize,
    writes_seen: usize,
    data: String,
}

impl FailingSink {
    fn new(writes_before_failure: usize) -> Self {
        FailingSink { writes_before_failure, writes_seen: 0, data: String::new() }
    }
}

impl Sink for FailingSink {
    fn write_str(&mut self, s: &str) -> Result<(), RenderError> {
        if self.writes_seen >= self.writes_before_failure {
            return Err(RenderError { msg: String::from("sink refused the write") });
        }
        self.writes_seen += 1;
        self.data.push_str(s);
        Ok(())
    }
}

fn sample_line() -> TLine {
    TLine {
        strings: vec![
            TString { csi: String::from("\u{1b}[1m"), raw: String::from("A") },
            TString { csi: String::new(), raw: String::from("B") },
        ],
    }
}

#[test]
fn failure_on_first_write_surfaces_as_error() {
    let line = sample_line();
    let mut sink = FailingSink::new(0);
    let r = line.draw(&mut sink);
    match r {
        Err(e) => assert_eq!(e.message(), "sink refused the write"),
        Ok(()) => panic!("draw should have failed"),
    }
    assert_eq!(sink.data, "");
}

#[test]
fn failure_mid_render_keeps_partial_output() {
    let line = sample_line();
    let mut sink = FailingSink::new(2);
    let r = line.draw(&mut sink);
    assert!(r.is_err());
    assert_eq!(sink.data, "\u{1b}[1mA");
}

#[test]
fn model_stays_renderable_after_a_failure() {
    let line = sample_line();
    let mut failing = FailingSink::new(1);
    assert!(line.draw(&mut failing).is_err());
    let mut sink = StringSink::new();
    line.draw(&mut sink).unwrap();
    assert_eq!(sink.data, "\u{1b}[1mA\u{1b}[0m\u{1b}[0mB");
}

#[test]
fn enough_writes_succeed() {
    let line = sample_line();
    let mut sink = FailingSink::new(4);
    line.draw(&mut sink).unwrap();
    assert_eq!(sink.data, "\u{1b}[1mA\u{1b}[0m\u{1b}[0mB");
}

#[test]
fn empty_line_succeeds_even_on_a_failing_sink() {
    let line = TLine { strings: vec![] };
    let mut sink = FailingSink::new(0);
    line.draw(&mut sink).unwrap();
    assert_eq!(sink.data, "");
}
