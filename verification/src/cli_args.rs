//! Command-line flag lookup (`--notify <name>`, `--notify=<name>`, `-n <name>`).

use vstd::prelude::*;
use crate::text::{chars_of, chars_eq, chars_starts_with, is_prefix, string_skip, opt_chars};

verus! {

broadcast use vstd::string::group_string_axioms;

/// The views of a list of strings.
pub open spec fn views(args: Seq<String>) -> Seq<Seq<char>> {
    args.map_values(|a: String| a@)
}

/// The value that the flag (`long` or `short`) gives, scanning `args` from position `i`:
/// the argument after the first `long` / `short`, or the text after `long=`,
/// whichever comes first; `None` when the flag is absent or has no value.
pub open spec fn flag_value(args: Seq<Seq<char>>, i: int, long: Seq<char>, short: Seq<char>) -> Option<Seq<char>>
    decreases args.len() - i,
{
    if i < 0 || i >= args.len() {
        None
    } else if args[i] == long || args[i] == short {
        if i + 1 < args.len() {
            Some(args[i + 1])
        } else {
            None
        }
    } else if is_prefix(long.push('='), args[i]) {
        Some(args[i].skip(long.len() + 1int))
    } else {
        flag_value(args, i + 1, long, short)
    }
}

/// Looks up a flag among the program arguments; `args[0]` (the program) is skipped.
pub fn find_arg(args: &[String], long: &str, short: &str) -> (r: Option<String>)
    ensures
        opt_chars(r) == flag_value(views(args@), 1, long@, short@),
{
    let lv = chars_of(long);
    let sv = chars_of(short);
    let mut long_eq = chars_of(long);
    long_eq.push('=');
    let ghost a = views(args@);
    let mut i: usize = 1;
    while i < args.len()
        invariant
            a == views(args@),
            lv@ == long@,
            sv@ == short@,
            long_eq@ == long@.push('='),
            1 <= i,
            flag_value(a, 1, long@, short@) == flag_value(a, i as int, long@, short@),
        decreases args.len() - i,
    {
        let cur = chars_of(args[i].as_str());
        assert(cur@ == a[i as int]);
        if chars_eq(cur.as_slice(), lv.as_slice()) || chars_eq(cur.as_slice(), sv.as_slice()) {
            if i + 1 < args.len() {
                let v = args[i + 1].clone();
                assert(v@ == a[i + 1]);
                return Some(v);
            } else {
                return None;
            }
        } else if chars_starts_with(cur.as_slice(), long_eq.as_slice()) {
            return Some(string_skip(cur.as_slice(), long_eq.len()));
        }
        i = i + 1;
    }
    None
}

/// The value of `--notify` / `-n`.
pub fn find_notify_arg(args: &[String]) -> (r: Option<String>)
    ensures
        opt_chars(r) == flag_value(views(args@), 1, "--notify"@, "-n"@),
{
    find_arg(args, "--notify", "-n")
}

/// The value of `--kind` / `-k`.
pub fn find_kind_arg(args: &[String]) -> (r: Option<String>)
    ensures
        opt_chars(r) == flag_value(views(args@), 1, "--kind"@, "-k"@),
{
    find_arg(args, "--kind", "-k")
}

} // verus!
