//! Text written to a terminal.

use vstd::prelude::*;
use crate::text::{chars_of, string_of};

verus! {

broadcast use vstd::string::group_string_axioms;

/// A text with its line ends made carriage returns: `\r\n` becomes `\r`, a lone `\n`
/// becomes `\r`.
pub open spec fn cr_lines(s: Seq<char>) -> Seq<char>
    decreases s.len(),
{
    if s.len() == 0 {
        Seq::<char>::empty()
    } else {
        let p = cr_lines(s.drop_last());
        let c = s.last();
        if c == '\n' && s.len() >= 2 && s[s.len() - 2] == '\r' {
            p
        } else if c == '\n' {
            p.push('\r')
        } else {
            p.push(c)
        }
    }
}

/// The body written before the final Enter: the text with carriage-return line ends, less
/// one final carriage return.
pub open spec fn submitted(s: Seq<char>) -> Seq<char> {
    let n = cr_lines(s);
    if n.len() > 0 && n.last() == '\r' { n.drop_last() } else { n }
}

/// The body to write for a submitted text; the caller sends the Enter that ends it on its own.
/// Exactly one trailing line end is taken off, so a text ending in two keeps one.
pub fn submit_body(text: &str) -> (r: String)
    ensures
        r@ == submitted(text@),
{
    let cs = chars_of(text);
    let mut out: Vec<char> = Vec::new();
    let mut i: usize = 0;
    while i < cs.len()
        invariant
            i <= cs.len(),
            out@ == cr_lines(cs@.take(i as int)),
        decreases cs.len() - i,
    {
        let ghost t = cs@.take(i + 1);
        assert(t.drop_last() == cs@.take(i as int));
        assert(t.last() == cs@[i as int]);
        let c = cs[i];
        if c == '\n' && i >= 1 && cs[i - 1] == '\r' {
            assert(t[t.len() - 2] == cs@[i - 1]);
        } else if c == '\n' {
            if i >= 1 {
                assert(t[t.len() - 2] == cs@[i - 1]);
            }
            out.push('\r');
        } else {
            out.push(c);
        }
        i = i + 1;
    }
    assert(cs@.take(cs.len() as int) == cs@);
    if out.len() > 0 && out[out.len() - 1] == '\r' {
        out.pop();
    }
    string_of(out.as_slice())
}

} // verus!
