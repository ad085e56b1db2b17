//! The run builder: the state machine that folds a stream of parse
//! events into a styled line.
//!
//! The builder consumes `print` and `csi_dispatch` events in stream
//! order.  A printable character opens a plain run or extends the open
//! one.  A CSI sequence with parameter list `[0]` is an explicit reset:
//! it closes any open run and contributes nothing to any prefix.  Any
//! other CSI sequence compounds into the open run's prefix while that
//! run has no text yet, and otherwise closes the open run and opens a
//! fresh one whose prefix is exactly the new introducer — nothing is
//! inherited from the previous style.  All other event kinds a terminal
//! grammar can produce are inert by design.

use vstd::prelude::*;
use crate::csi::csi_of;
use crate::line::{TLine, render_line};
use crate::run::{RunView, TString, render_run};

verus! {

/// The mathematical value of a builder: the open run, if any, and the
/// finished runs in order.
#[verifier::ext_equal]
pub ghost struct BuilderView {
    pub cur: Option<RunView>,
    pub finished: Seq<RunView>,
}

/// A run with no style and no text.
pub open spec fn empty_run() -> RunView {
    RunView { csi: Seq::empty(), raw: Seq::empty() }
}

/// The state of a freshly created builder: nothing open, nothing
/// finished.
pub open spec fn builder_init() -> BuilderView {
    BuilderView { cur: None, finished: Seq::empty() }
}

/// Whether a parameter list is the explicit style reset.
pub open spec fn is_reset(params: Seq<i64>) -> bool {
    params.len() == 1 && params[0] == 0
}

/// The builder after one printable character: the character is appended
/// to the open run's text, a plain run being opened first if none was.
pub open spec fn builder_print(b: BuilderView, c: char) -> BuilderView {
    let r = match b.cur {
        Some(r) => r,
        None => empty_run(),
    };
    BuilderView { cur: Some(RunView { csi: r.csi, raw: r.raw.push(c) }), finished: b.finished }
}

/// The runs of the finished line: the closed ones, then the open one if
/// any.
pub open spec fn flushed(b: BuilderView) -> Seq<RunView> {
    match b.cur {
        Some(r) => b.finished.push(r),
        None => b.finished,
    }
}

/// The builder after one CSI sequence.
pub open spec fn builder_csi(b: BuilderView, params: Seq<i64>, action: char) -> BuilderView {
    if is_reset(params) {
        BuilderView { cur: None, finished: flushed(b) }
    } else {
        match b.cur {
            Some(r) => if r.raw.len() == 0 {
                BuilderView {
                    cur: Some(RunView { csi: r.csi + csi_of(params, action), raw: r.raw }),
                    finished: b.finished,
                }
            } else {
                BuilderView {
                    cur: Some(RunView { csi: csi_of(params, action), raw: Seq::empty() }),
                    finished: b.finished.push(r),
                }
            },
            None => BuilderView {
                cur: Some(RunView { csi: csi_of(params, action), raw: Seq::empty() }),
                finished: b.finished,
            },
        }
    }
}

/// The builder after a whole sequence of printable characters, in order.
pub open spec fn feed_prints(b: BuilderView, s: Seq<char>) -> BuilderView
    decreases s.len(),
{
    if s.len() == 0 {
        b
    } else {
        feed_prints(builder_print(b, s[0]), s.drop_first())
    }
}

/// Printable characters only extend the open run's text: the style and
/// the finished runs are untouched.
pub proof fn lemma_feed_prints_extends(r: RunView, f: Seq<RunView>, s: Seq<char>)
    ensures
        feed_prints(BuilderView { cur: Some(r), finished: f }, s) =~= (BuilderView {
            cur: Some(RunView { csi: r.csi, raw: r.raw + s }),
            finished: f,
        }),
    decreases s.len(),
{
    if s.len() == 0 {
        assert(r.raw + s =~= r.raw);
    } else {
        let r1 = RunView { csi: r.csi, raw: r.raw.push(s[0]) };
        lemma_feed_prints_extends(r1, f, s.drop_first());
        assert(r.raw.push(s[0]) + s.drop_first() =~= r.raw + s);
    }
}

/// A character stream with no escape sequences parses to a single run
/// with an empty style prefix and the stream as its text, and that line
/// renders back to exactly the original characters.  An empty stream
/// parses to a line with no runs, which renders to nothing.
pub proof fn lemma_plain_round_trip(s: Seq<char>)
    ensures
        s.len() > 0 ==> flushed(feed_prints(builder_init(), s)) =~= seq![
            RunView { csi: Seq::empty(), raw: s },
        ],
        s.len() == 0 ==> flushed(feed_prints(builder_init(), s)) =~= Seq::<RunView>::empty(),
        render_line(flushed(feed_prints(builder_init(), s))) == s,
{
    if s.len() == 0 {
        assert(render_line(Seq::<RunView>::empty()) =~= s);
    } else {
        let r0 = RunView { csi: Seq::empty(), raw: seq![s[0]] };
        assert(builder_print(builder_init(), s[0]) =~= (BuilderView {
            cur: Some(r0),
            finished: Seq::empty(),
        })) by {
            assert(Seq::<char>::empty().push(s[0]) =~= seq![s[0]]);
        }
        lemma_feed_prints_extends(r0, Seq::empty(), s.drop_first());
        let run = RunView { csi: Seq::empty(), raw: s };
        assert(seq![s[0]] + s.drop_first() =~= s);
        assert(flushed(feed_prints(builder_init(), s)) =~= seq![run]);
        assert(render_line(seq![run]) == render_line(seq![run].drop_last()) + render_run(run));
        assert(seq![run].drop_last() =~= Seq::<RunView>::empty());
        assert(render_line(seq![run]) =~= s);
    }
}

/// An explicit reset closes any open run and introduces no prefix of its
/// own; the next printed character then starts a fresh run with an empty
/// style prefix.
pub proof fn lemma_reset_then_print(b: BuilderView, action: char, c: char)
    ensures
        builder_csi(b, seq![0i64], action).cur is None,
        builder_csi(b, seq![0i64], action).finished == flushed(b),
        builder_print(builder_csi(b, seq![0i64], action), c) =~= (BuilderView {
            cur: Some(RunView { csi: Seq::empty(), raw: seq![c] }),
            finished: flushed(b),
        }),
{
    assert(is_reset(seq![0i64]));
    assert(Seq::<char>::empty().push(c) =~= seq![c]);
}

/// After an explicit reset, non-reset CSI sequences arriving before the
/// next printed character compound into that fresh run's prefix, which
/// starts from nothing: the character prints under exactly the new
/// introducer.
pub proof fn lemma_reset_then_csi_then_print(
    b: BuilderView,
    a0: char,
    params: Seq<i64>,
    action: char,
    c: char,
)
    requires
        !is_reset(params),
    ensures
        builder_print(builder_csi(builder_csi(b, seq![0i64], a0), params, action), c) =~= (
        BuilderView { cur: Some(RunView { csi: csi_of(params, action), raw: seq![c] }), finished: flushed(b) }),
{
    assert(is_reset(seq![0i64]));
    assert(Seq::<char>::empty().push(c) =~= seq![c]);
}

/// Two consecutive non-reset CSI sequences with no intervening print
/// both land in one open run's compound style prefix, concatenated in
/// emission order after whatever prefix that run already had.
pub proof fn lemma_csi_compound(b: BuilderView, p1: Seq<i64>, a1: char, p2: Seq<i64>, a2: char)
    requires
        !is_reset(p1),
        !is_reset(p2),
        b.cur is Some ==> b.cur.unwrap().raw.len() == 0,
    ensures
        builder_csi(builder_csi(b, p1, a1), p2, a2) =~= (BuilderView {
            cur: Some(
                RunView {
                    csi: (match b.cur {
                        Some(r) => r.csi,
                        None => Seq::<char>::empty(),
                    }) + csi_of(p1, a1) + csi_of(p2, a2),
                    raw: Seq::empty(),
                },
            ),
            finished: b.finished,
        }),
{
}

/// A CSI sequence arriving after text was already printed under the
/// current style closes that run and opens a new one whose prefix is
/// exactly the one new introducer: the previous style is not inherited.
pub proof fn lemma_csi_after_text(b: BuilderView, r: RunView, params: Seq<i64>, action: char)
    requires
        b.cur == Some(r),
        r.raw.len() > 0,
        !is_reset(params),
    ensures
        builder_csi(b, params, action) =~= (BuilderView {
            cur: Some(RunView { csi: csi_of(params, action), raw: Seq::empty() }),
            finished: b.finished.push(r),
        }),
{
}

/// Builds a [`TLine`] from a stream of parse events, one event per call.
#[derive(Debug)]
pub struct TLineBuilder {
    cur: Option<TString>,
    strings: Vec<TString>,
}

impl View for TLineBuilder {
    type V = BuilderView;

    closed spec fn view(&self) -> BuilderView {
        BuilderView {
            cur: match self.cur {
                Some(t) => Some(t@),
                None => None,
            },
            finished: self.strings@.map_values(|t: TString| t@),
        }
    }
}

impl Default for TLineBuilder {
    /// A builder with nothing open and nothing finished.
    fn default() -> (r: Self)
        ensures
            r@ == builder_init(),
    {
        let r = TLineBuilder { cur: None, strings: Vec::new() };
        proof {
            assert(r@ =~= builder_init());
        }
        r
    }
}

impl TLineBuilder {
    /// Takes one printable character from the stream.
    pub fn print(&mut self, c: char)
        ensures
            final(self)@ == builder_print(old(self)@, c),
    {
        let mut cur = match self.cur.take() {
            Some(t) => t,
            None => TString::default(),
        };
        crate::csi::push_char(&mut cur.raw, c);
        self.cur = Some(cur);
        proof {
            assert(self@ =~= builder_print(old(self)@, c));
        }
    }

    /// Takes one complete CSI sequence from the stream.
    pub fn csi_dispatch(&mut self, params: &[i64], action: char)
        requires
            forall|i: int| 0 <= i < params@.len() ==> 0 <= #[trigger] params@[i],
        ensures
            final(self)@ == builder_csi(old(self)@, params@, action),
    {
        if params.len() == 1 && params[0] == 0 {
            match self.cur.take() {
                Some(t) => self.strings.push(t),
                None => {},
            }
            proof {
                assert(self@ =~= builder_csi(old(self)@, params@, action));
            }
            return;
        }
        match self.cur.take() {
            Some(t) => {
                if t.raw.as_str().is_empty() {
                    let mut t = t;
                    t.push_csi(params, action);
                    self.cur = Some(t);
                } else {
                    self.strings.push(t);
                    let mut fresh = TString::default();
                    fresh.push_csi(params, action);
                    self.cur = Some(fresh);
                }
            },
            None => {
                let mut fresh = TString::default();
                fresh.push_csi(params, action);
                self.cur = Some(fresh);
            },
        }
        proof {
            assert(self@ =~= builder_csi(old(self)@, params@, action));
        }
    }

    /// Drains the builder into the finished, immutable line: the open
    /// run, if any, is flushed as the last run.
    pub fn to_tline(self) -> (r: TLine)
        ensures
            r@ == flushed(self@),
    {
        let ghost bv = self@;
        let TLineBuilder { cur, strings } = self;
        let mut strings = strings;
        match cur {
            Some(t) => strings.push(t),
            None => {},
        }
        let r = TLine { strings };
        proof {
            assert(r@ =~= flushed(bv));
        }
        r
    }
}

} // verus!
