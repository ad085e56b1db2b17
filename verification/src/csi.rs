//! Formatting of CSI escape sequences.
//!
//! A CSI sequence is `ESC '[' p0 ';' p1 ... ';' pn action`: the escape
//! character, an opening bracket, the decimal parameters joined by
//! semicolons (no trailing semicolon), and a single action character.
//! The spec function [`csi_of`] is the single source of truth for this
//! encoding; the executable builders below are proved against it.

use vstd::prelude::*;

verus! {

/// The escape character that introduces every CSI sequence.
pub open spec fn esc_char() -> char {
    '\u{1b}'
}

/// The character for one decimal digit `d` (`0 <= d <= 9`).
pub open spec fn digit_char(d: int) -> char {
    if d == 0 {
        '0'
    } else if d == 1 {
        '1'
    } else if d == 2 {
        '2'
    } else if d == 3 {
        '3'
    } else if d == 4 {
        '4'
    } else if d == 5 {
        '5'
    } else if d == 6 {
        '6'
    } else if d == 7 {
        '7'
    } else if d == 8 {
        '8'
    } else {
        '9'
    }
}

/// The decimal digits of a non-negative integer, most significant first.
pub open spec fn dec_of(n: int) -> Seq<char>
    decreases n,
{
    if n < 10 {
        seq![digit_char(n)]
    } else {
        dec_of(n / 10).push(digit_char(n % 10))
    }
}

/// The parameter list of a CSI sequence: decimal renderings joined by `;`.
pub open spec fn params_chars(params: Seq<i64>) -> Seq<char>
    decreases params.len(),
{
    if params.len() == 0 {
        Seq::empty()
    } else if params.len() == 1 {
        dec_of(params[0] as int)
    } else {
        params_chars(params.drop_last()) + seq![';'] + dec_of(params.last() as int)
    }
}

/// The full CSI sequence for a parameter list and an action character.
pub open spec fn csi_of(params: Seq<i64>, action: char) -> Seq<char> {
    seq![esc_char(), '['] + params_chars(params) + seq![action]
}

/// Relies on `String::push` from std: appends the given char to the end
/// of this `String`.
#[verifier::external_body]
pub fn push_char(s: &mut String, c: char)
    ensures
        final(s)@ == old(s)@.push(c),
{
    s.push(c);
}

/// The character for one decimal digit, executably.
pub fn digit_char_exec(d: u64) -> (c: char)
    requires
        d < 10,
    ensures
        c == digit_char(d as int),
{
    if d == 0 {
        '0'
    } else if d == 1 {
        '1'
    } else if d == 2 {
        '2'
    } else if d == 3 {
        '3'
    } else if d == 4 {
        '4'
    } else if d == 5 {
        '5'
    } else if d == 6 {
        '6'
    } else if d == 7 {
        '7'
    } else if d == 8 {
        '8'
    } else {
        '9'
    }
}

/// The part of the parameter list written after `i` of the `params` have
/// been emitted: every finished parameter is followed by a `;` except the
/// last one of the whole list.
pub open spec fn params_chars_upto(params: Seq<i64>, i: int) -> Seq<char> {
    if i == params.len() {
        params_chars(params)
    } else if i == 0 {
        Seq::empty()
    } else {
        params_chars(params.take(i)) + seq![';']
    }
}

/// Appends the decimal rendering of `n` to `s`.
pub fn push_decimal(s: &mut String, n: u64)
    ensures
        final(s)@ == old(s)@ + dec_of(n as int),
    decreases n,
{
    if n < 10 {
        push_char(s, digit_char_exec(n));
        proof {
            assert(s@ =~= old(s)@ + dec_of(n as int));
        }
    } else {
        push_decimal(s, n / 10);
        push_char(s, digit_char_exec(n % 10));
        proof {
            assert(s@ =~= old(s)@ + dec_of(n as int));
        }
    }
}

/// Appends the full CSI sequence for `(params, action)` to `s`.
pub fn push_csi_chars(s: &mut String, params: &[i64], action: char)
    requires
        forall|i: int| 0 <= i < params@.len() ==> 0 <= #[trigger] params@[i],
    ensures
        final(s)@ == old(s)@ + csi_of(params@, action),
{
    push_char(s, '\u{1b}');
    push_char(s, '[');
    let n = params.len();
    let mut idx: usize = 0;
    while idx < n
        invariant
            n == params@.len(),
            idx <= n,
            forall|i: int| 0 <= i < params@.len() ==> 0 <= #[trigger] params@[i],
            s@ == old(s)@ + seq![esc_char(), '['] + params_chars_upto(params@, idx as int),
        decreases n - idx,
    {
        proof {
            if idx > 0 {
                assert(params@.take(idx + 1).drop_last() =~= params@.take(idx as int));
                assert(params@.take(idx + 1).last() == params@[idx as int]);
            } else {
                assert(params@.take(1) =~= seq![params@[0]]);
            }
            if idx + 1 == n {
                assert(params@.take(idx + 1) =~= params@);
            }
        }
        push_decimal(s, params[idx] as u64);
        if idx + 1 < n {
            push_char(s, ';');
        }
        idx += 1;
        proof {
            assert(s@ =~= old(s)@ + seq![esc_char(), '['] + params_chars_upto(
                params@,
                idx as int,
            ));
        }
    }
    push_char(s, action);
    proof {
        assert(s@ =~= old(s)@ + csi_of(params@, action));
    }
}

/// The combined style-reset sequence: a generic attribute reset followed
/// by a second zero-parameter reset, both in the canonical CSI encoding.
pub open spec fn reset_seq() -> Seq<char> {
    csi_of(seq![0i64], 'm') + csi_of(seq![0i64], 'm')
}

/// The bold introducer.
pub open spec fn bold_seq() -> Seq<char> {
    csi_of(seq![1i64], 'm')
}

/// Bold combined with bright red (8-bit palette index 9).
pub open spec fn bold_red_seq() -> Seq<char> {
    bold_seq() + csi_of(seq![38i64, 5i64, 9i64], 'm')
}

/// Bold combined with yellow (legacy 16-color index 3).
pub open spec fn bold_yellow_seq() -> Seq<char> {
    bold_seq() + csi_of(seq![33i64], 'm')
}

/// Bold combined with bright blue (8-bit palette index 12).
pub open spec fn bold_blue_seq() -> Seq<char> {
    bold_seq() + csi_of(seq![38i64, 5i64, 12i64], 'm')
}

/// The style-reset sequence emitted after every run with a non-empty
/// style prefix.
pub fn csi_reset() -> (r: String)
    ensures
        r@ == reset_seq(),
{
    let mut s = String::new();
    let ps: Vec<i64> = vec![0];
    push_csi_chars(&mut s, ps.as_slice(), 'm');
    push_csi_chars(&mut s, ps.as_slice(), 'm');
    proof {
        assert(s@ =~= reset_seq());
    }
    s
}

/// The bold style prefix.
pub fn csi_bold() -> (r: String)
    ensures
        r@ == bold_seq(),
{
    let mut s = String::new();
    let ps: Vec<i64> = vec![1];
    push_csi_chars(&mut s, ps.as_slice(), 'm');
    proof {
        assert(s@ =~= bold_seq());
    }
    s
}

/// The bold bright-red style prefix.
pub fn csi_bold_red() -> (r: String)
    ensures
        r@ == bold_red_seq(),
{
    let mut s = csi_bold();
    let ps: Vec<i64> = vec![38, 5, 9];
    push_csi_chars(&mut s, ps.as_slice(), 'm');
    proof {
        assert(s@ =~= bold_red_seq());
    }
    s
}

/// The bold yellow style prefix.
pub fn csi_bold_yellow() -> (r: String)
    ensures
        r@ == bold_yellow_seq(),
{
    let mut s = csi_bold();
    let ps: Vec<i64> = vec![33];
    push_csi_chars(&mut s, ps.as_slice(), 'm');
    proof {
        assert(s@ =~= bold_yellow_seq());
    }
    s
}

/// The bold bright-blue style prefix.
pub fn csi_bold_blue() -> (r: String)
    ensures
        r@ == bold_blue_seq(),
{
    let mut s = csi_bold();
    let ps: Vec<i64> = vec![38, 5, 12];
    push_csi_chars(&mut s, ps.as_slice(), 'm');
    proof {
        assert(s@ =~= bold_blue_seq());
    }
    s
}

} // verus!
