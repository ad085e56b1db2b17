//! A styled line: an ordered sequence of homogeneously styled runs.

use vstd::prelude::*;
use crate::run::{RunView, TString, render_run};
use crate::sink::{Sink, RenderError};

verus! {

/// The characters a whole line renders to: each run's rendering, in run
/// order.
pub open spec fn render_line(runs: Seq<RunView>) -> Seq<char>
    decreases runs.len(),
{
    if runs.len() == 0 {
        Seq::empty()
    } else {
        render_line(runs.drop_last()) + render_run(runs.last())
    }
}

/// One parsed unit of terminal output: the finished, immutable sequence
/// of styled runs.  It captures only print content and CSI styling;
/// cursor movement and other control semantics are not represented.
#[derive(Debug)]
pub struct TLine {
    pub strings: Vec<TString>,
}

impl View for TLine {
    type V = Seq<RunView>;

    open spec fn view(&self) -> Seq<RunView> {
        self.strings@.map_values(|t: TString| t@)
    }
}

impl Default for TLine {
    /// A line with no runs.
    fn default() -> (r: Self)
        ensures
            r@ == Seq::<RunView>::empty(),
    {
        let r = TLine { strings: Vec::new() };
        proof {
            assert(r@ =~= Seq::<RunView>::empty());
        }
        r
    }
}

impl TLine {
    /// Writes every run to `w`, in order, stopping at the first write
    /// failure.  On success the sink took exactly this line's rendering;
    /// a sink that accepts every write is owed success, a line with no
    /// runs succeeds on any sink, and the line itself is untouched
    /// either way.
    pub fn draw<S: Sink>(&self, w: &mut S) -> (r: Result<(), RenderError>)
        ensures
            r is Ok ==> final(w).out() == old(w).out() + render_line(self@),
            old(w).never_fails() ==> r is Ok && final(w).never_fails(),
            self@.len() == 0 ==> r is Ok,
    {
        let n = self.strings.len();
        let mut i: usize = 0;
        while i < n
            invariant
                n == self.strings.len(),
                i <= n,
                w.out() == old(w).out() + render_line(self@.take(i as int)),
                old(w).never_fails() ==> w.never_fails(),
            decreases n - i,
        {
            match self.strings[i].draw(w) {
                Err(e) => {
                    return Err(e);
                },
                _ => {},
            }
            proof {
                assert(self@.take(i + 1).drop_last() =~= self@.take(i as int));
                assert(self@.take(i + 1).last() == self@[i as int]);
                assert(w.out() =~= old(w).out() + render_line(self@.take(i + 1)));
            }
            i += 1;
        }
        proof {
            assert(self@.take(n as int) =~= self@);
        }
        Ok(())
    }
}

} // verus!
