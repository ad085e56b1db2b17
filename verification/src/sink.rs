//! The output side of rendering: a sink of characters.
//!
//! Rendering writes characters to a caller-supplied sink, one `write_str`
//! call at a time, and stops at the first failure.  The sink is the one
//! collaborator the caller implements; [`StringSink`] is the in-memory
//! implementation this crate provides.

use vstd::prelude::*;

verus! {

/// The one error that crosses this crate's boundary: a sink refused a
/// write.  It carries the sink's own description of the failure.
#[derive(Debug)]
pub struct RenderError {
    pub msg: String,
}

impl RenderError {
    /// The description of the underlying write failure.
    pub fn message(&self) -> (r: &str)
        ensures
            r@ == self.msg@,
    {
        self.msg.as_str()
    }
}

/// A destination for rendered characters.
///
/// `out` is the sequence of characters the sink has accepted so far.  A
/// successful `write_str` appends exactly its argument to that sequence;
/// a failing one leaves whatever the sink already took in place (nothing
/// is promised of it, and nothing is rolled back).
pub trait Sink {
    /// Everything this sink has accepted so far, in order.  A verified
    /// implementation overrides this; an unverified one may leave the
    /// default, under which nothing useful is promised of its writes.
    open spec fn out(&self) -> Seq<char> {
        Seq::empty()
    }

    /// Whether this sink accepts every write.  A verified implementation
    /// that cannot fail overrides this with `true`, and rendering is then
    /// owed success; the default promises nothing.
    open spec fn never_fails(&self) -> bool {
        false
    }

    /// Writes the characters of `s`, in order, after everything written
    /// before.
    fn write_str(&mut self, s: &str) -> (r: Result<(), RenderError>)
        ensures
            r is Ok ==> final(self).out() == old(self).out() + s@,
            old(self).never_fails() ==> r is Ok && final(self).never_fails(),
    ;
}

/// A sink that collects everything into an owned `String` and never
/// fails.
pub struct StringSink {
    pub data: String,
}

impl StringSink {
    /// An empty sink.
    pub fn new() -> (r: Self)
        ensures
            r.out() == Seq::<char>::empty(),
    {
        let r = StringSink { data: String::new() };
        proof {
            assert(r.out() =~= Seq::<char>::empty());
        }
        r
    }
}

impl Sink for StringSink {
    open spec fn out(&self) -> Seq<char> {
        self.data@
    }

    open spec fn never_fails(&self) -> bool {
        true
    }

    fn write_str(&mut self, s: &str) -> (r: Result<(), RenderError>)
        ensures
            r is Ok,
    {
        self.data.append(s);
        Ok(())
    }
}

} // verus!
