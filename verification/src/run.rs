//! A styled run: one span of text under one fixed style prefix.

use vstd::prelude::*;
use crate::csi::{csi_of, push_csi_chars, csi_reset, reset_seq};
use crate::sink::{Sink, RenderError};
use crate::text::{str_eq, str_is_prefix};

verus! {

/// The mathematical value of a styled run: its style prefix and its text,
/// both as character sequences.
#[verifier::ext_equal]
pub ghost struct RunView {
    pub csi: Seq<char>,
    pub raw: Seq<char>,
}

/// The characters a run contributes to a rendering: plain text alone if
/// the style prefix is empty, otherwise the prefix, then the text, then
/// the combined reset sequence, in that order and nothing else.
pub open spec fn render_run(r: RunView) -> Seq<char> {
    if r.csi.len() == 0 {
        r.raw
    } else {
        r.csi + r.raw + reset_seq()
    }
}

/// A colored and styled string: a style prefix of zero or more CSI
/// sequences, and the literal text it applies to.
#[derive(Debug)]
pub struct TString {
    pub csi: String,
    pub raw: String,
}

impl View for TString {
    type V = RunView;

    open spec fn view(&self) -> RunView {
        RunView { csi: self.csi@, raw: self.raw@ }
    }
}

impl Default for TString {
    /// A run with no style and no text.
    fn default() -> (r: Self)
        ensures
            r@ == (RunView { csi: Seq::<char>::empty(), raw: Seq::<char>::empty() }),
    {
        let r = TString { csi: String::new(), raw: String::new() };
        proof {
            assert(r@ =~= (RunView { csi: Seq::<char>::empty(), raw: Seq::<char>::empty() }));
        }
        r
    }
}

impl TString {
    /// Appends the canonical encoding of one CSI sequence to this run's
    /// style prefix; the text is untouched.
    pub fn push_csi(&mut self, params: &[i64], action: char)
        requires
            forall|i: int| 0 <= i < params@.len() ==> 0 <= #[trigger] params@[i],
        ensures
            final(self)@.csi == old(self)@.csi + csi_of(params@, action),
            final(self)@.raw == old(self)@.raw,
    {
        push_csi_chars(&mut self.csi, params, action);
    }

    /// Writes this run to `w`: the raw text alone when the style prefix
    /// is empty, otherwise prefix, text and the reset sequence, in that
    /// order.  Fails only when the sink fails — a sink that accepts
    /// every write is owed success — and the run itself is untouched
    /// either way.
    pub fn draw<S: Sink>(&self, w: &mut S) -> (r: Result<(), RenderError>)
        ensures
            r is Ok ==> final(w).out() == old(w).out() + render_run(self@),
            old(w).never_fails() ==> r is Ok && final(w).never_fails(),
    {
        if self.csi.as_str().is_empty() {
            match w.write_str(self.raw.as_str()) {
                Ok(u) => Ok(u),
                Err(e) => Err(e),
            }
        } else {
            match w.write_str(self.csi.as_str()) {
                Err(e) => {
                    return Err(e);
                },
                _ => {},
            }
            match w.write_str(self.raw.as_str()) {
                Err(e) => {
                    return Err(e);
                },
                _ => {},
            }
            let reset = csi_reset();
            match w.write_str(reset.as_str()) {
                Err(e) => {
                    return Err(e);
                },
                _ => {},
            }
            proof {
                assert(w.out() =~= old(w).out() + render_run(self@));
            }
            Ok(())
        }
    }

    /// Whether this run's style prefix is exactly `csi` and its text
    /// begins with the characters of `raw`.
    pub fn starts_with(&self, csi: &str, raw: &str) -> (r: bool)
        ensures
            r == (self@.csi == csi@ && raw@.is_prefix_of(self@.raw)),
    {
        str_eq(self.csi.as_str(), csi) && str_is_prefix(raw, self.raw.as_str())
    }

    /// Splits this run's text at character offset `at`: the text beyond
    /// `at` moves to the returned run, the text before it stays here, and
    /// both runs keep the original style prefix.  The two texts
    /// concatenate back to the original.
    pub fn split_off(&mut self, at: usize) -> (r: Self)
        requires
            at <= old(self)@.raw.len(),
        ensures
            final(self)@.csi == old(self)@.csi,
            r@.csi == old(self)@.csi,
            final(self)@.raw == old(self)@.raw.subrange(0, at as int),
            r@.raw == old(self)@.raw.subrange(at as int, old(self)@.raw.len() as int),
            old(self)@.raw == final(self)@.raw + r@.raw,
    {
        let n = self.raw.as_str().unicode_len();
        let right = self.raw.as_str().substring_char(at, n).to_owned();
        let left = self.raw.as_str().substring_char(0, at).to_owned();
        self.raw = left;
        let r = TString { csi: self.csi.clone(), raw: right };
        proof {
            assert(old(self)@.raw =~= self@.raw + r@.raw);
        }
        r
    }
}

} // verus!
