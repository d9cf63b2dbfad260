//! Artifacts: identifiers, sources, line windows, exported names and in-place edits.

use vstd::prelude::*;
use crate::errors::{ToolError, ToolErrorKind, invalid_params};
use crate::platform_paths::{PrefixAnswer, AbsoluteAnswer, ask_starts_with, ask_is_absolute, absolute_shape};
use vstd::utf8::{valid_utf8, decode_utf8};
use crate::json::{JsonValue, lookup};
use crate::server::{is_digit, all_digits, digits_value, lemma_digits_grow};
use crate::text::{
    chars_of, string_of, contains_seq, occurs_at, chars_contains, chars_occur_at, chars_has, chars_split,
    chars_join, vviews, split_on, join_with, append_chars, lemma_split_nonempty, trim, text_less, chars_less,
    lemma_text_less_transitive, lemma_text_less_total,
};

verus! {

broadcast use vstd::string::group_string_axioms;

/// What std's `{:?}` formatting gives for a text: the quoted, escaped form.
pub uninterp spec fn debug_quoted(s: Seq<char>) -> Seq<char>;

/// std `format!("{:?}", s)` for a `str`.
#[verifier::external_body]
fn debug_str(s: &str) -> (r: String)
    ensures
        r@ == debug_quoted(s@),
{
    format!("{:?}", s)
}

/// An artifact identifier that cannot serve as a file name inside the artifacts directory:
/// empty, or holding `..`, a path separator, NUL, or a drive colon.
pub open spec fn bad_artifact_id(id: Seq<char>) -> bool {
    ||| id.len() == 0
    ||| contains_seq(id, seq!['.', '.'])
    ||| id.contains('/')
    ||| id.contains('\\')
    ||| id.contains('\0')
    ||| id.contains(':')
}

/// The message for a refused artifact identifier.
pub open spec fn bad_artifact_id_message(id: Seq<char>) -> Seq<char> {
    "不正なアーティファクトIDです: "@ + debug_quoted(id)
}

/// Checks that `id` can name an artifact file.
pub fn validate_artifact_id(id: &str) -> (r: Result<(), ToolError>)
    ensures
        r is Ok <==> !bad_artifact_id(id@),
        r matches Err(e) ==> e.kind == ToolErrorKind::InvalidParams
            && e.message@ == bad_artifact_id_message(id@),
{
    let cs = chars_of(id);
    let dots: [char; 2] = ['.', '.'];
    assert(dots@ == seq!['.', '.']);
    if cs.len() == 0 || chars_contains(cs.as_slice(), dots.as_slice()) || chars_has(cs.as_slice(), '/')
        || chars_has(cs.as_slice(), '\\') || chars_has(cs.as_slice(), '\0') || chars_has(cs.as_slice(), ':')
    {
        let mut m = String::from_str("不正なアーティファクトIDです: ");
        let q = debug_str(id);
        m.append(q.as_str());
        proof { reveal_strlit("不正なアーティファクトIDです: "); }
        return Err(invalid_params(m));
    }
    Ok(())
}

/// A module name that could leave the artifact's module space.
pub open spec fn bad_module_name(name: Seq<char>) -> bool {
    ||| contains_seq(name, seq!['.', '.'])
    ||| (name.len() > 0 && name[0] == '/')
    ||| name.contains('\\')
    ||| name.contains('\0')
}

/// The message for a refused module name.
pub open spec fn bad_module_name_message(name: Seq<char>) -> Seq<char> {
    "無効なモジュール名: '"@ + name + "'"@
}

/// Checks that `name` can name a module of an artifact.
pub fn validate_module_name(name: &str) -> (r: Result<(), ToolError>)
    ensures
        r is Ok <==> !bad_module_name(name@),
        r matches Err(e) ==> e.kind == ToolErrorKind::InvalidParams
            && e.message@ == bad_module_name_message(name@),
{
    let cs = chars_of(name);
    let dots: [char; 2] = ['.', '.'];
    assert(dots@ == seq!['.', '.']);
    if chars_contains(cs.as_slice(), dots.as_slice()) || (cs.len() > 0 && cs[0] == '/')
        || chars_has(cs.as_slice(), '\\') || chars_has(cs.as_slice(), '\0')
    {
        let mut m = String::from_str("無効なモジュール名: '");
        m.append(name);
        m.append("'");
        proof {
            reveal_strlit("無効なモジュール名: '");
            reveal_strlit("'");
        }
        return Err(invalid_params(m));
    }
    Ok(())
}


/// Where the source of an artifact or module comes from: given inline, or read from a file.
#[derive(Debug)]
pub enum SourceSpec {
    Inline(String),
    File(String),
}

/// The message when neither `content` nor `file_path` is given to `what`.
pub open spec fn missing_source_message(what: Seq<char>) -> Seq<char> {
    what + " には content または file_path が必要です"@
}

/// What `classify_source` answers: the source, or the message of the refusal.
pub open spec fn classified(r: Result<SourceSpec, ToolError>, content: Option<String>, file_path: Option<String>, what: Seq<char>) -> bool {
    match (content, file_path) {
        (Some(_), Some(_)) => r matches Err(e) && e.kind == ToolErrorKind::InvalidParams
            && e.message@ == "content と file_path は同時に指定できません。どちらか一方だけを指定してください"@,
        (None, None) => r matches Err(e) && e.kind == ToolErrorKind::InvalidParams
            && e.message@ == missing_source_message(what),
        (Some(c), None) => r matches Ok(SourceSpec::Inline(x)) && x == c,
        (None, Some(p)) => r matches Ok(SourceSpec::File(x)) && x == p,
    }
}

/// Decides between inline content and a file path; exactly one of them must be given.
pub fn classify_source(content: Option<String>, file_path: Option<String>, what: &str) -> (r: Result<SourceSpec, ToolError>)
    ensures
        classified(r, content, file_path, what@),
{
    match (content, file_path) {
        (Some(_), Some(_)) => Err(invalid_params(String::from_str(
            "content と file_path は同時に指定できません。どちらか一方だけを指定してください",
        ))),
        (Some(c), None) => Ok(SourceSpec::Inline(c)),
        (None, Some(p)) => Ok(SourceSpec::File(p)),
        (None, None) => {
            let mut m = String::from_str(what);
            m.append(" には content または file_path が必要です");
            proof { reveal_strlit(" には content または file_path が必要です"); }
            Err(invalid_params(m))
        },
    }
}

/// A line without the carriage return that ended it before its newline.
pub open spec fn strip_cr(p: Seq<char>) -> Seq<char> {
    if p.len() > 0 && p.last() == '\r' { p.drop_last() } else { p }
}

/// The lines of a text as `str::lines` gives them: split at `\n`, a `\r` right before a `\n`
/// dropped, and no empty line after a final `\n`.
pub open spec fn text_lines(s: Seq<char>) -> Seq<Seq<char>> {
    let pieces = split_on(s, '\n');
    if s.len() == 0 {
        Seq::<Seq<char>>::empty()
    } else if s.last() == '\n' {
        pieces.drop_last().map_values(|p: Seq<char>| strip_cr(p))
    } else {
        pieces.drop_last().map_values(|p: Seq<char>| strip_cr(p)).push(pieces.last())
    }
}

/// `strip_cr` on characters.
fn chars_strip_cr(p: &Vec<char>) -> (r: Vec<char>)
    ensures
        r@ == strip_cr(p@),
{
    let mut out = p.clone();
    assert(out@ == p@);
    if out.len() > 0 && out[out.len() - 1] == '\r' {
        out.pop();
    }
    out
}

/// The lines of `s` (`str::lines`).
pub fn lines_of(s: &[char]) -> (r: Vec<Vec<char>>)
    ensures
        vviews(r@) == text_lines(s@),
{
    let pieces = chars_split(s, '\n');
    proof { lemma_split_nonempty(s@, '\n'); }
    let ghost ps = split_on(s@, '\n');
    let mut out: Vec<Vec<char>> = Vec::new();
    let n = pieces.len();
    let mut i: usize = 0;
    while i + 1 < n
        invariant
            n == pieces.len(),
            n >= 1,
            i + 1 <= n,
            vviews(pieces@) == ps,
            vviews(out@) == ps.take(i as int).map_values(|p: Seq<char>| strip_cr(p)),
        decreases n - i,
    {
        let line = chars_strip_cr(&pieces[i]);
        let ghost before = out@;
        out.push(line);
        assert(ps.take(i + 1) == ps.take(i as int).push(ps[i as int]));
        assert(vviews(out@) =~= vviews(before).push(line@));
        assert(ps.take(i + 1).map_values(|p: Seq<char>| strip_cr(p))
            =~= ps.take(i as int).map_values(|p: Seq<char>| strip_cr(p)).push(strip_cr(ps[i as int])));
        i = i + 1;
    }
    assert(ps.take(i as int) == ps.drop_last());
    if s.len() > 0 && s[s.len() - 1] != '\n' {
        let last = pieces[n - 1].clone();
        let ghost before = out@;
        out.push(last);
        assert(vviews(out@) =~= vviews(before).push(ps.last()));
    }
    proof {
        if s@.len() == 0 {
            assert(ps == seq![Seq::<char>::empty()]);
            assert(ps.drop_last() =~= Seq::<Seq<char>>::empty());
            assert(vviews(out@) =~= Seq::<Seq<char>>::empty());
        }
    }
    out
}


/// The lines in a window that starts at line `off` and holds at most `lim` lines
/// (to the end when `lim` is `None`); empty when `off` is past the end.
pub open spec fn window_lines(lines: Seq<Seq<char>>, off: int, lim: Option<int>) -> Seq<Seq<char>> {
    let start = if off < lines.len() { off } else { lines.len() as int };
    let end = match lim {
        Some(l) => if start + l < lines.len() { start + l } else { lines.len() as int },
        None => lines.len() as int,
    };
    lines.subrange(start, end)
}

/// The part of a text that a read with `offset` / `limit` gives back: the window's lines joined
/// by `\n`, with the text's final newline kept when the window reaches the end. With neither
/// a positive offset nor a limit, the text itself.
pub open spec fn content_window(c: Seq<char>, offset: Option<u32>, limit: Option<u32>) -> Seq<char> {
    let lines = text_lines(c);
    let off: int = match offset { Some(o) => o as int, None => 0 };
    let trailing = c.len() > 0 && c.last() == '\n';
    match limit {
        Some(l) => {
            let body = join_with(window_lines(lines, off, Some(l as int)), seq!['\n']);
            if trailing && off + l >= lines.len() { body.push('\n') } else { body }
        },
        None => if off > 0 {
            let body = join_with(window_lines(lines, off, None), seq!['\n']);
            if trailing { body.push('\n') } else { body }
        } else {
            c
        },
    }
}

/// A window of a text read by lines, with the text's line count and the window's start.
pub struct LineWindow {
    pub content: String,
    pub total_lines: usize,
    pub offset: usize,
}

/// Reads the window of `content` that starts at line `offset` (0 when absent) and holds at
/// most `limit` lines.
pub fn read_window(content: &str, offset: Option<u32>, limit: Option<u32>) -> (r: LineWindow)
    ensures
        r.content@ == content_window(content@, offset, limit),
        r.total_lines == text_lines(content@).len(),
        r.offset as int == match offset { Some(o) => o as int, None => 0int },
{
    let cs = chars_of(content);
    let lines = lines_of(cs.as_slice());
    let ghost ls = text_lines(content@);
    let total = lines.len();
    let off: usize = match offset { Some(o) => o as usize, None => 0 };
    let trailing = cs.len() > 0 && cs[cs.len() - 1] == '\n';
    if limit.is_none() && off == 0 {
        return LineWindow { content: string_of(cs.as_slice()), total_lines: total, offset: off };
    }
    let start: usize = if off < total { off } else { total };
    let end: usize = match limit {
        Some(l) => if (start as u64) + (l as u64) < (total as u64) { start + l as usize } else { total },
        None => total,
    };
    let mut sub: Vec<Vec<char>> = Vec::new();
    let mut k: usize = start;
    while k < end
        invariant
            start <= k <= end <= total,
            total == lines.len(),
            vviews(lines@) == ls,
            vviews(sub@) == ls.subrange(start as int, k as int),
        decreases end - k,
    {
        let line = lines[k].clone();
        assert(line@ == lines@[k as int]@);
        let ghost before = sub@;
        sub.push(line);
        assert(vviews(sub@) =~= vviews(before).push(line@));
        assert(ls.subrange(start as int, k + 1) =~= ls.subrange(start as int, k as int).push(ls[k as int]));
        k = k + 1;
    }
    let nl: [char; 1] = ['\n'];
    assert(nl@ == seq!['\n']);
    let mut body = chars_join(&sub, nl.as_slice());
    let at_end = match limit {
        Some(l) => (off as u64) + (l as u64) >= (total as u64),
        None => true,
    };
    if trailing && at_end {
        body.push('\n');
    }
    LineWindow { content: string_of(body.as_slice()), total_lines: total, offset: off }
}


/// How many times `c` occurs in `s`.
pub open spec fn count_char(s: Seq<char>, c: char) -> nat
    decreases s.len(),
{
    if s.len() == 0 {
        0
    } else {
        count_char(s.drop_last(), c) + if s.last() == c { 1nat } else { 0nat }
    }
}

proof fn lemma_count_concat(a: Seq<char>, b: Seq<char>, c: char)
    ensures
        count_char(a + b, c) == count_char(a, c) + count_char(b, c),
    decreases b.len(),
{
    if b.len() > 0 {
        lemma_count_concat(a, b.drop_last(), c);
        assert((a + b).drop_last() =~= a + b.drop_last());
    } else {
        assert(a + b =~= a);
    }
}

proof fn lemma_count_newline_alone()
    ensures
        count_char(seq!['\n'], '\n') == 1,
{
    let s = seq!['\n'];
    assert(s.drop_last() =~= Seq::<char>::empty());
    assert(count_char(Seq::<char>::empty(), '\n') == 0);
    assert(s.last() == '\n');
}

proof fn lemma_count_absent(s: Seq<char>, c: char)
    requires
        !s.contains(c),
    ensures
        count_char(s, c) == 0,
    decreases s.len(),
{
    if s.len() > 0 {
        assert(s.drop_last().contains(c) ==> s.contains(c)) by {
            if s.drop_last().contains(c) {
                let k = choose|k: int| 0 <= k < s.drop_last().len() && s.drop_last()[k] == c;
                assert(s[k] == c);
            }
        }
        assert(s[s.len() - 1] == s.last());
        lemma_count_absent(s.drop_last(), c);
    }
}

proof fn lemma_split_pieces_lack_sep(s: Seq<char>, c: char)
    ensures
        forall|i: int| 0 <= i < split_on(s, c).len() ==> !(#[trigger] split_on(s, c)[i]).contains(c),
    decreases s.len(),
{
    lemma_split_nonempty(s, c);
    if s.len() > 0 {
        let p = split_on(s.drop_last(), c);
        lemma_split_pieces_lack_sep(s.drop_last(), c);
        lemma_split_nonempty(s.drop_last(), c);
        if s.last() != c {
            let q = p.last().push(s.last());
            assert(!p[p.len() - 1].contains(c));
            assert(!q.contains(c)) by {
                if q.contains(c) {
                    let k = choose|k: int| 0 <= k < q.len() && q[k] == c;
                    if k < q.len() - 1 {
                        assert(p.last()[k] == c);
                    }
                }
            }
        } else {
            assert(!Seq::<char>::empty().contains(c));
        }
    }
}

/// No line of a text holds a newline.
proof fn lemma_text_lines_lack_newline(s: Seq<char>)
    ensures
        forall|i: int| 0 <= i < text_lines(s).len() ==> !(#[trigger] text_lines(s)[i]).contains('\n'),
{
    let pieces = split_on(s, '\n');
    lemma_split_pieces_lack_sep(s, '\n');
    lemma_split_nonempty(s, '\n');
    assert forall|i: int| 0 <= i < text_lines(s).len() implies !(#[trigger] text_lines(s)[i]).contains('\n') by {
        if i < pieces.len() - 1 {
            let p = pieces[i];
            assert(!p.contains('\n'));
            assert(text_lines(s)[i] == strip_cr(p));
            if strip_cr(p).contains('\n') {
                let k = choose|k: int| 0 <= k < strip_cr(p).len() && strip_cr(p)[k] == '\n';
                assert(p[k] == '\n');
            }
        } else {
            assert(text_lines(s)[i] == pieces.last());
            assert(!pieces[pieces.len() - 1].contains('\n'));
        }
    }
}

/// Joining `k` newline-free parts with newlines gives `k - 1` newlines.
proof fn lemma_join_newlines(parts: Seq<Seq<char>>)
    requires
        parts.len() > 0,
        forall|i: int| 0 <= i < parts.len() ==> !(#[trigger] parts[i]).contains('\n'),
    ensures
        count_char(join_with(parts, seq!['\n']), '\n') + 1 == parts.len(),
    decreases parts.len(),
{
    if parts.len() == 1 {
        lemma_count_absent(parts[0], '\n');
    } else {
        let init = parts.drop_last();
        assert forall|i: int| 0 <= i < init.len() implies !(#[trigger] init[i]).contains('\n') by {
            assert(init[i] == parts[i]);
        }
        lemma_join_newlines(init);
        let j = join_with(init, seq!['\n']);
        lemma_count_concat(j, seq!['\n'], '\n');
        lemma_count_concat(j + seq!['\n'], parts.last(), '\n');
        lemma_count_newline_alone();
        assert(!parts[parts.len() - 1].contains('\n'));
        lemma_count_absent(parts.last(), '\n');
    }
}

/// A read with a limit of `l` lines shows at most `l` lines: its text holds at most `l`
/// newlines (one between each two lines shown, and the text's final newline only when the
/// window reaches the end), whatever the offset. Without an offset it shows the first lines:
/// the window is the first `l` lines of the text.
pub proof fn lemma_limited_read_shows_at_most_limit_lines(c: Seq<char>, offset: Option<u32>, l: u32)
    requires
        l > 0,
    ensures
        count_char(content_window(c, offset, Some(l)), '\n') <= l,
        offset is None ==> content_window(c, offset, Some(l)) == ({
            let body = join_with(text_lines(c).take(if l < text_lines(c).len() { l as int } else { text_lines(c).len() as int }), seq!['\n']);
            if c.len() > 0 && c.last() == '\n' && l >= text_lines(c).len() { body.push('\n') } else { body }
        }),
{
    let lines = text_lines(c);
    let off: int = match offset { Some(o) => o as int, None => 0 };
    let w = window_lines(lines, off, Some(l as int));
    lemma_text_lines_lack_newline(c);
    let body = join_with(w, seq!['\n']);
    let start = if off < lines.len() { off } else { lines.len() as int };
    let end = if start + l < lines.len() { start + l } else { lines.len() as int };
    assert(w.len() == end - start);
    if w.len() > 0 {
        assert forall|i: int| 0 <= i < w.len() implies !(#[trigger] w[i]).contains('\n') by {
            assert(w[i] == lines[start + i]);
        }
        lemma_join_newlines(w);
    } else {
        assert(body == Seq::<char>::empty());
        assert(count_char(body, '\n') == 0);
    }
    let trailing = c.len() > 0 && c.last() == '\n';
    if trailing && off + l >= lines.len() {
        lemma_count_concat(body, seq!['\n'], '\n');
        assert(body.push('\n') =~= body + seq!['\n']);
        lemma_count_newline_alone();
        if w.len() == 0 {
            // the window is empty only when it starts at the end
            assert(count_char(body.push('\n'), '\n') == 1);
        }
    }
    if offset is None {
        assert(w =~= lines.take(if l < lines.len() { l as int } else { lines.len() as int }));
    }
}

/// How far a search moves on after a match of `p`: past it, or one position for an empty `p`.
pub open spec fn match_step(p: Seq<char>) -> int {
    if p.len() == 0 { 1 } else { p.len() as int }
}

/// The number of non-overlapping matches of `p` in `s` found scanning from position `i`
/// (`str::matches(p).count()` when `i` is 0).
pub open spec fn matches_from(s: Seq<char>, p: Seq<char>, i: int) -> nat
    decreases s.len() + 1 - i,
{
    if i < 0 || i > s.len() {
        0
    } else if occurs_at(s, p, i) {
        1 + matches_from(s, p, i + match_step(p))
    } else {
        matches_from(s, p, i + 1)
    }
}

/// The number of non-overlapping matches of `p` in `s`.
pub open spec fn match_count(s: Seq<char>, p: Seq<char>) -> nat {
    matches_from(s, p, 0)
}

/// The first position from `i` on where `p` occurs in `s`, or -1.
pub open spec fn first_from(s: Seq<char>, p: Seq<char>, i: int) -> int
    decreases s.len() + 1 - i,
{
    if i < 0 || i > s.len() {
        -1
    } else if occurs_at(s, p, i) {
        i
    } else {
        first_from(s, p, i + 1)
    }
}

/// `s` with its first match of `p` replaced by `q` (`replacen(p, q, 1)` when `p` occurs).
pub open spec fn replaced_first(s: Seq<char>, p: Seq<char>, q: Seq<char>) -> Seq<char> {
    let i = first_from(s, p, 0);
    s.take(i) + q + s.skip(i + p.len())
}

proof fn lemma_first_found(s: Seq<char>, p: Seq<char>, i: int)
    requires
        0 <= i <= s.len(),
        matches_from(s, p, i) > 0,
    ensures
        i <= first_from(s, p, i),
        occurs_at(s, p, first_from(s, p, i)),
    decreases s.len() + 1 - i,
{
    if !occurs_at(s, p, i) {
        assert(matches_from(s, p, i) == matches_from(s, p, i + 1));
        assert(first_from(s, p, i) == first_from(s, p, i + 1));
        if i < s.len() {
            lemma_first_found(s, p, i + 1);
        } else {
            assert(matches_from(s, p, i + 1) == 0);
        }
    } else {
        assert(first_from(s, p, i) == i);
    }
}

/// The number of non-overlapping matches of `p` in `s`, and where the first one starts
/// (meaningful when there is one).
fn count_matches(s: &[char], p: &[char]) -> (r: (u128, usize))
    ensures
        r.0 == match_count(s@, p@),
        r.0 > 0 ==> r.1 as int == first_from(s@, p@, 0),
{
    let mut i: usize = 0;
    let mut count: u128 = 0;
    let mut first: usize = 0;
    loop
        invariant_except_break
            i <= s.len(),
            count <= i,
            count + matches_from(s@, p@, i as int) == matches_from(s@, p@, 0),
            count == 0 ==> first_from(s@, p@, 0) == first_from(s@, p@, i as int),
            count > 0 ==> first as int == first_from(s@, p@, 0),
        ensures
            count == matches_from(s@, p@, 0),
            count > 0 ==> first as int == first_from(s@, p@, 0),
        decreases s.len() - i,
    {
        if chars_occur_at(s, p, i) {
            if count == 0 {
                first = i;
            }
            count = count + 1;
            if i == s.len() {
                assert(matches_from(s@, p@, i + match_step(p@)) == 0);
                assert(first_from(s@, p@, i as int) == i);
                break;
            }
            if p.len() == 0 {
                i = i + 1;
            } else {
                i = i + p.len();
            }
        } else {
            if i == s.len() {
                assert(matches_from(s@, p@, i + 1) == 0);
                assert(matches_from(s@, p@, i as int) == 0);
                break;
            }
            i = i + 1;
        }
    }
    (count, first)
}

/// Replaces the one match of `old` in `text` by `new`; when `old` does not match exactly once
/// (counted as `str::matches` counts), gives back how often it matches.
pub fn unique_replacement(text: &str, old: &str, new: &str) -> (r: Result<String, u128>)
    ensures
        r is Ok <==> match_count(text@, old@) == 1,
        r matches Ok(t) ==> t@ == replaced_first(text@, old@, new@),
        r matches Err(n) ==> n == match_count(text@, old@),
{
    let cs = chars_of(text);
    let ps = chars_of(old);
    let (count, first) = count_matches(cs.as_slice(), ps.as_slice());
    if count != 1 {
        return Err(count);
    }
    proof {
        lemma_first_found(cs@, ps@, 0);
        assert(first as int == first_from(cs@, ps@, 0));
        assert(occurs_at(cs@, ps@, first as int));
        assert(first + ps@.len() <= cs@.len());
    }
    let plen = ps.len();
    assert(first + plen <= cs.len());
    let end = first + plen;
    let mut out: Vec<char> = Vec::new();
    let head = crate::text::chars_range(cs.as_slice(), 0, first);
    append_chars(&mut out, head.as_slice());
    let ns = chars_of(new);
    append_chars(&mut out, ns.as_slice());
    let tail = crate::text::chars_skip(cs.as_slice(), end);
    append_chars(&mut out, tail.as_slice());
    assert(head@ == cs@.take(first as int));
    Ok(string_of(out.as_slice()))
}


/// What std's `char::is_alphanumeric` says of a character (Unicode `Alphabetic` or `Numeric`).
pub uninterp spec fn alphanumeric(c: char) -> bool;

/// std `char::is_alphanumeric`.
#[verifier::external_body]
fn char_is_alphanumeric(c: char) -> (r: bool)
    ensures
        r == alphanumeric(c),
{
    c.is_alphanumeric()
}

/// A character that may stand in an exported name.
pub open spec fn ident_char(c: char) -> bool {
    alphanumeric(c) || c == '_'
}

/// The longest prefix of `s` made of name characters.
pub open spec fn ident_prefix(s: Seq<char>) -> Seq<char>
    decreases s.len(),
{
    if s.len() > 0 && ident_char(s[0]) {
        seq![s[0]] + ident_prefix(s.drop_first())
    } else {
        Seq::<char>::empty()
    }
}

/// `s` with every leading repetition of `p` removed (`trim_start_matches(p)`).
pub open spec fn strip_all(s: Seq<char>, p: Seq<char>) -> Seq<char>
    decreases s.len(),
{
    if p.len() > 0 && crate::text::is_prefix(p, s) {
        strip_all(s.skip(p.len() as int), p)
    } else {
        s
    }
}

/// The name a line exports, if it is an `export default function|class` or an
/// `export function|const|class` line followed by a name.
pub open spec fn export_name(line: Seq<char>) -> Option<Seq<char>> {
    let t = crate::text::trim(line);
    let dfun = "export default function "@;
    let dcls = "export default class "@;
    let fun = "export function "@;
    let cnst = "export const "@;
    let cls = "export class "@;
    if crate::text::is_prefix(dfun, t) || crate::text::is_prefix(dcls, t) {
        let name = ident_prefix(strip_all(strip_all(t, dfun), dcls));
        if name.len() > 0 { Some(name) } else { None }
    } else if crate::text::is_prefix(fun, t) || crate::text::is_prefix(cnst, t) || crate::text::is_prefix(cls, t) {
        let name = ident_prefix(strip_all(strip_all(strip_all(t, fun), cnst), cls));
        if name.len() > 0 { Some(name) } else { None }
    } else {
        None
    }
}

/// The names exported by the first `n` lines, a name dropped where it repeats the one before.
pub open spec fn exports_upto(lines: Seq<Seq<char>>, n: int) -> Seq<Seq<char>>
    decreases n,
{
    if n <= 0 {
        Seq::<Seq<char>>::empty()
    } else {
        let acc = exports_upto(lines, n - 1);
        match export_name(lines[n - 1]) {
            Some(x) => if acc.len() > 0 && acc.last() == x { acc } else { acc.push(x) },
            None => acc,
        }
    }
}

/// The names a source file exports, in order, without repeats in a row.
pub open spec fn exported_names(src: Seq<char>) -> Seq<Seq<char>> {
    exports_upto(text_lines(src), text_lines(src).len() as int)
}

/// `strip_all` on characters.
fn chars_strip_all(s: &[char], p: &[char]) -> (r: Vec<char>)
    ensures
        r@ == strip_all(s@, p@),
{
    let mut i: usize = 0;
    if p.len() == 0 {
        return crate::text::chars_skip(s, 0);
    }
    assert(s@.skip(0) == s@);
    loop
        invariant
            p@.len() > 0,
            i <= s@.len(),
            strip_all(s@.skip(i as int), p@) == strip_all(s@, p@),
        decreases s.len() - i,
    {
        let rest = crate::text::chars_skip(s, i);
        if !crate::text::chars_starts_with(rest.as_slice(), p) {
            return rest;
        }
        assert(rest@.skip(p@.len() as int) == s@.skip(i + p@.len()));
        i = i + p.len();
    }
}

/// `ident_prefix` on characters.
fn chars_ident_prefix(s: &[char]) -> (r: Vec<char>)
    ensures
        r@ == ident_prefix(s@),
{
    let mut j: usize = 0;
    while j < s.len() && (char_is_alphanumeric(s[j]) || s[j] == '_')
        invariant
            j <= s.len(),
            forall|k: int| 0 <= k < j ==> ident_char(s@[k]),
        decreases s.len() - j,
    {
        j = j + 1;
    }
    proof { lemma_ident_prefix(s@, j as int); }
    crate::text::chars_range(s, 0, j)
}

proof fn lemma_ident_prefix(s: Seq<char>, j: int)
    requires
        0 <= j <= s.len(),
        forall|k: int| 0 <= k < j ==> ident_char(s[k]),
        j == s.len() || !ident_char(s[j]),
    ensures
        ident_prefix(s) == s.subrange(0, j),
    decreases j,
{
    if j > 0 {
        lemma_ident_prefix(s.drop_first(), j - 1);
        assert(ident_prefix(s) == seq![s[0]] + ident_prefix(s.drop_first()));
        assert(s.subrange(0, j) =~= seq![s[0]] + s.drop_first().subrange(0, j - 1));
    } else {
        assert(s.subrange(0, 0) =~= Seq::<char>::empty());
    }
}

/// The name `line` exports, if any.
fn line_export(line: &[char]) -> (r: Option<Vec<char>>)
    ensures
        match r {
            Some(v) => export_name(line@) == Some(v@),
            None => export_name(line@) is None,
        },
{
    let t = crate::text::chars_trim(line);
    let dfun = chars_of("export default function ");
    let dcls = chars_of("export default class ");
    let fun = chars_of("export function ");
    let cnst = chars_of("export const ");
    let cls = chars_of("export class ");
    let name = if crate::text::chars_starts_with(t.as_slice(), dfun.as_slice())
        || crate::text::chars_starts_with(t.as_slice(), dcls.as_slice())
    {
        let a = chars_strip_all(t.as_slice(), dfun.as_slice());
        let b = chars_strip_all(a.as_slice(), dcls.as_slice());
        chars_ident_prefix(b.as_slice())
    } else if crate::text::chars_starts_with(t.as_slice(), fun.as_slice())
        || crate::text::chars_starts_with(t.as_slice(), cnst.as_slice())
        || crate::text::chars_starts_with(t.as_slice(), cls.as_slice())
    {
        let a = chars_strip_all(t.as_slice(), fun.as_slice());
        let b = chars_strip_all(a.as_slice(), cnst.as_slice());
        let c = chars_strip_all(b.as_slice(), cls.as_slice());
        chars_ident_prefix(c.as_slice())
    } else {
        return None;
    };
    if name.len() > 0 { Some(name) } else { None }
}

/// The names a source exports (`export default function|class`, `export function|const|class`),
/// in order of their lines, a name dropped where it repeats the one before.
pub fn extract_exports(src: &str) -> (r: Vec<String>)
    ensures
        crate::targets::sviews(r@) == exported_names(src@),
{
    let cs = chars_of(src);
    let lines = lines_of(cs.as_slice());
    let ghost ls = text_lines(src@);
    let mut out: Vec<String> = Vec::new();
    let mut last: Option<Vec<char>> = None;
    let mut i: usize = 0;
    while i < lines.len()
        invariant
            i <= lines.len(),
            vviews(lines@) == ls,
            crate::targets::sviews(out@) == exports_upto(ls, i as int),
            match last {
                Some(v) => out@.len() > 0 && v@ == out@.last()@,
                None => out@.len() == 0,
            },
        decreases lines.len() - i,
    {
        assert(lines@[i as int]@ == ls[i as int]);
        match line_export(lines[i].as_slice()) {
            Some(name) => {
                let repeat = match &last {
                    Some(prev) => crate::text::chars_eq(prev.as_slice(), name.as_slice()),
                    None => false,
                };
                if !repeat {
                    let ghost before = out@;
                    out.push(string_of(name.as_slice()));
                    assert(crate::targets::sviews(out@) =~= crate::targets::sviews(before).push(name@));
                    last = Some(name);
                }
            },
            None => {},
        }
        i = i + 1;
    }
    out
}


/// One module of an artifact: its name and its source.
#[derive(Debug)]
pub struct ModuleSource {
    pub name: String,
    pub source: String,
}

/// A stored artifact.
#[derive(Debug)]
pub struct ArtifactData {
    pub id: String,
    pub content_type: String,
    pub title: String,
    pub content: String,
    pub language: Option<String>,
    pub modules: Vec<ModuleSource>,
    /// While set, writes that come through the tool interface are refused as long as the
    /// artifact is open in the viewer.
    pub locked_while_open: Option<bool>,
    pub created_at: u64,
    pub updated_at: u64,
}

/// The modules as a map from name to source; of two entries with one name the later counts.
pub open spec fn module_map(ms: Seq<ModuleSource>) -> Map<Seq<char>, Seq<char>>
    decreases ms.len(),
{
    if ms.len() == 0 {
        Map::<Seq<char>, Seq<char>>::empty()
    } else {
        module_map(ms.drop_last()).insert(ms.last().name@, ms.last().source@)
    }
}

fn copy_module(m: &ModuleSource) -> (r: ModuleSource)
    ensures
        r.name@ == m.name@,
        r.source@ == m.source@,
{
    ModuleSource { name: m.name.clone(), source: m.source.clone() }
}

/// The modules without the one called `name`.
fn modules_without(ms: &Vec<ModuleSource>, name: &str) -> (r: Vec<ModuleSource>)
    ensures
        module_map(r@) == module_map(ms@).remove(name@),
{
    let mut out: Vec<ModuleSource> = Vec::new();
    let mut i: usize = 0;
    while i < ms.len()
        invariant
            i <= ms.len(),
            module_map(out@) == module_map(ms@.take(i as int)).remove(name@),
        decreases ms.len() - i,
    {
        let ghost t = ms@.take(i + 1);
        assert(t.drop_last() == ms@.take(i as int));
        assert(t.last() == ms@[i as int]);
        if !crate::text::str_eq(ms[i].name.as_str(), name) {
            let m = copy_module(&ms[i]);
            let ghost before = out@;
            out.push(m);
            assert(out@.drop_last() == before);
            assert(module_map(out@) =~= module_map(t).remove(name@));
        } else {
            assert(module_map(out@) =~= module_map(t).remove(name@));
        }
        i = i + 1;
    }
    assert(ms@.take(ms.len() as int) == ms@);
    out
}

/// The source of module `name`, if the artifact has one.
pub fn module_source<'a>(ms: &'a Vec<ModuleSource>, name: &str) -> (r: Option<&'a String>)
    ensures
        match r {
            Some(src) => module_map(ms@).contains_key(name@) && module_map(ms@)[name@] == src@,
            None => !module_map(ms@).contains_key(name@),
        },
{
    let mut i: usize = ms.len();
    assert(ms@.skip(ms.len() as int) =~= Seq::<ModuleSource>::empty());
    while i > 0
        invariant
            i <= ms.len(),
            !module_map(ms@.skip(i as int)).contains_key(name@),
        decreases i,
    {
        let ghost s2 = ms@.skip(i - 1);
        proof {
            lemma_module_map_split(s2, 1);
            assert(s2.skip(1) == ms@.skip(i as int));
            assert(s2.take(1) =~= seq![ms@[i - 1]]);
            assert(seq![ms@[i - 1]].drop_last() =~= Seq::<ModuleSource>::empty());
            assert(module_map(seq![ms@[i - 1]]) == module_map(Seq::<ModuleSource>::empty()).insert(ms@[i - 1].name@, ms@[i - 1].source@));
        }
        if crate::text::str_eq(ms[i - 1].name.as_str(), name) {
            proof {
                lemma_module_map_split(ms@, i - 1);
            }
            return Some(&ms[i - 1].source);
        }
        assert(!module_map(s2).contains_key(name@));
        i = i - 1;
    }
    assert(ms@.skip(0) == ms@);
    None
}

proof fn lemma_module_map_split(ms: Seq<ModuleSource>, i: int)
    requires
        0 <= i <= ms.len(),
    ensures
        module_map(ms) == module_map(ms.take(i)).union_prefer_right(module_map(ms.skip(i))),
    decreases ms.len(),
{
    if ms.len() == i {
        assert(ms.take(i) == ms);
        assert(ms.skip(i) =~= Seq::<ModuleSource>::empty());
        assert(module_map(ms) =~= module_map(ms).union_prefer_right(Map::<Seq<char>, Seq<char>>::empty()));
    } else {
        lemma_module_map_split(ms.drop_last(), i);
        assert(ms.drop_last().take(i) == ms.take(i));
        assert(ms.drop_last().skip(i) == ms.skip(i).drop_last());
        assert(ms.skip(i).last() == ms.last());
        assert(module_map(ms) =~= module_map(ms.take(i)).union_prefer_right(module_map(ms.skip(i))));
    }
}


/// What a write command of `artifact` asks for, its source still to be fetched.
#[derive(Debug)]
pub enum WriteRequest {
    Create { content_type: String, title: String, source: SourceSpec },
    Update,
    Rewrite { source: SourceSpec },
}

/// The message for a command that `artifact` does not know.
pub open spec fn unknown_artifact_command_message(command: Seq<char>) -> Seq<char> {
    "不明なコマンド '"@ + command + "'. create / update / rewrite / get / outline のいずれかを指定してください"@
}

/// What `plan_artifact_write` answers for a command and its arguments.
pub open spec fn planned(
    r: Result<WriteRequest, ToolError>,
    command: Seq<char>,
    content_type: Option<String>,
    title: Option<String>,
    content: Option<String>,
    file_path: Option<String>,
) -> bool {
    if command == "create"@ {
        match (content_type, title) {
            (None, _) => r matches Err(e) && e.kind == ToolErrorKind::InvalidParams
                && e.message@ == "create には type が必須です"@,
            (Some(_), None) => r matches Err(e) && e.kind == ToolErrorKind::InvalidParams
                && e.message@ == "create には title が必須です"@,
            (Some(ty), Some(ti)) => match r {
                Ok(WriteRequest::Create { content_type: t2, title: ti2, source }) =>
                    t2 == ty && ti2 == ti && classified(Ok(source), content, file_path, "create"@),
                Ok(_) => false,
                Err(e) => classified(Err(e), content, file_path, "create"@),
            },
        }
    } else if command == "update"@ {
        r matches Ok(WriteRequest::Update)
    } else if command == "rewrite"@ {
        match r {
            Ok(WriteRequest::Rewrite { source }) => classified(Ok(source), content, file_path, "rewrite"@),
            Ok(_) => false,
            Err(e) => classified(Err(e), content, file_path, "rewrite"@),
        }
    } else {
        r matches Err(e) && e.kind == ToolErrorKind::InvalidParams
            && e.message@ == unknown_artifact_command_message(command)
    }
}

/// Checks the arguments of a write command (`create`, `update`, `rewrite`) of `artifact` and
/// says where its source comes from.
pub fn plan_artifact_write(
    command: &str,
    content_type: Option<String>,
    title: Option<String>,
    content: Option<String>,
    file_path: Option<String>,
) -> (r: Result<WriteRequest, ToolError>)
    ensures
        planned(r, command@, content_type, title, content, file_path),
{
    if crate::text::str_eq(command, "create") {
        let ty = match content_type {
            Some(t) => t,
            None => return Err(invalid_params(String::from_str("create には type が必須です"))),
        };
        let ti = match title {
            Some(t) => t,
            None => return Err(invalid_params(String::from_str("create には title が必須です"))),
        };
        match classify_source(content, file_path, "create") {
            Ok(source) => Ok(WriteRequest::Create { content_type: ty, title: ti, source }),
            Err(e) => Err(e),
        }
    } else if crate::text::str_eq(command, "update") {
        Ok(WriteRequest::Update)
    } else if crate::text::str_eq(command, "rewrite") {
        match classify_source(content, file_path, "rewrite") {
            Ok(source) => Ok(WriteRequest::Rewrite { source }),
            Err(e) => Err(e),
        }
    } else {
        let mut m = String::from_str("不明なコマンド '");
        m.append(command);
        m.append("'. create / update / rewrite / get / outline のいずれかを指定してください");
        proof {
            reveal_strlit("不明なコマンド '");
            reveal_strlit("'. create / update / rewrite / get / outline のいずれかを指定してください");
        }
        Err(invalid_params(m))
    }
}

/// A write command of `artifact` with its source fetched.
#[derive(Debug)]
pub enum WriteInput {
    Create { content_type: String, title: String, content: String },
    Update,
    Rewrite { content: String },
}

/// The lock flag after a write: an explicit flag wins (`false` clears it), else the old one stays.
pub open spec fn lock_after(flag: Option<bool>, prior: Option<bool>) -> Option<bool> {
    match flag {
        Some(true) => Some(true),
        Some(false) => None,
        None => prior,
    }
}

/// The message for an artifact that does not exist.
pub open spec fn missing_artifact_message(id: Seq<char>) -> Seq<char> {
    "アーティファクト '"@ + id + "' が存在しません"@
}

/// `d` is `e` with a new entry text, update time and lock flag.
pub open spec fn rewritten(d: ArtifactData, e: ArtifactData, content: Seq<char>, now: u64, lock: Option<bool>) -> bool {
    &&& d.id == e.id
    &&& d.content_type == e.content_type
    &&& d.title == e.title
    &&& d.content@ == content
    &&& d.language == e.language
    &&& d.modules == e.modules
    &&& d.locked_while_open == lock
    &&& d.created_at == e.created_at
    &&& d.updated_at == now
}

fn missing_artifact(id: &str) -> (r: ToolError)
    ensures
        r.kind == ToolErrorKind::InvalidParams,
        r.message@ == missing_artifact_message(id@),
{
    let mut m = String::from_str("アーティファクト '");
    m.append(id);
    m.append("' が存在しません");
    proof {
        reveal_strlit("アーティファクト '");
        reveal_strlit("' が存在しません");
    }
    invalid_params(m)
}

/// What `apply_artifact_write` answers.
pub open spec fn applied(
    r: Result<ArtifactData, ToolError>,
    input: WriteInput,
    id: Seq<char>,
    existing: Option<ArtifactData>,
    language: Option<String>,
    old_str: Option<String>,
    new_str: Option<String>,
    flag: Option<bool>,
    now: u64,
) -> bool {
    let prior = match existing { Some(e) => e.locked_while_open, None => None };
    match input {
        WriteInput::Create { content_type, title, content } => r matches Ok(d) && {
            &&& d.id@ == id
            &&& d.content_type == content_type
            &&& d.title == title
            &&& d.content == content
            &&& d.language == language
            &&& d.modules@.len() == 0
            &&& d.locked_while_open == lock_after(flag, prior)
            &&& d.created_at == now
            &&& d.updated_at == now
        },
        WriteInput::Update => match (old_str, new_str, existing) {
            (None, _, _) => r matches Err(e) && e.kind == ToolErrorKind::InvalidParams
                && e.message@ == "update には old_str が必須です"@,
            (Some(_), None, _) => r matches Err(e) && e.kind == ToolErrorKind::InvalidParams
                && e.message@ == "update には new_str が必須です"@,
            (Some(_), Some(_), None) => r matches Err(e) && e.kind == ToolErrorKind::InvalidParams
                && e.message@ == missing_artifact_message(id),
            (Some(o), Some(n), Some(e)) => {
                let count = match_count(e.content@, o@);
                if count == 0 {
                    r matches Err(x) && x.kind == ToolErrorKind::InvalidParams
                        && x.message@ == "old_str がアーティファクト内に見つかりません"@
                } else if count > 1 {
                    r matches Err(x) && x.kind == ToolErrorKind::InvalidParams
                        && x.message@ == "old_str がアーティファクト内に複数箇所存在します。より長い文字列を指定してください"@
                } else {
                    r matches Ok(d) && rewritten(d, e, replaced_first(e.content@, o@, n@), now, lock_after(flag, prior))
                }
            },
        },
        WriteInput::Rewrite { content } => match existing {
            None => r matches Err(x) && x.kind == ToolErrorKind::InvalidParams
                && x.message@ == missing_artifact_message(id),
            Some(e) => r matches Ok(d) && rewritten(d, e, content@, now, lock_after(flag, prior)),
        },
    }
}

/// The lock flag of a written artifact: with no flag given it is the stored artifact's flag
/// (none for a new one), whatever the command; `true` locks and `false` unlocks.
pub proof fn lemma_write_keeps_lock_unless_told(
    r: Result<ArtifactData, ToolError>,
    input: WriteInput,
    id: Seq<char>,
    existing: Option<ArtifactData>,
    language: Option<String>,
    old_str: Option<String>,
    new_str: Option<String>,
    flag: Option<bool>,
    now: u64,
)
    requires
        applied(r, input, id, existing, language, old_str, new_str, flag, now),
        r is Ok,
    ensures
        flag is None ==> r->Ok_0.locked_while_open == match existing {
            Some(e) => e.locked_while_open,
            None => None::<bool>,
        },
        flag == Some(true) ==> r->Ok_0.locked_while_open == Some(true),
        flag == Some(false) ==> r->Ok_0.locked_while_open is None,
{
}

/// Carries out a write command of `artifact` on the stored artifact `existing` (if any): a
/// create builds it anew (keeping the old lock flag), an update replaces the one occurrence of
/// `old_str`, a rewrite replaces the entry text; an explicit `locked_while_open` then sets or
/// clears the lock flag.
pub fn apply_artifact_write(
    input: WriteInput,
    id: &str,
    existing: Option<ArtifactData>,
    language: Option<String>,
    old_str: Option<String>,
    new_str: Option<String>,
    locked_while_open: Option<bool>,
    now: u64,
) -> (r: Result<ArtifactData, ToolError>)
    ensures
        applied(r, input, id@, existing, language, old_str, new_str, locked_while_open, now),
{
    let prior = match &existing { Some(e) => e.locked_while_open, None => None };
    let lock = match locked_while_open {
        Some(true) => Some(true),
        Some(false) => None,
        None => prior,
    };
    match input {
        WriteInput::Create { content_type, title, content } => {
            Ok(ArtifactData {
                id: String::from_str(id),
                content_type,
                title,
                content,
                language,
                modules: Vec::new(),
                locked_while_open: lock,
                created_at: now,
                updated_at: now,
            })
        },
        WriteInput::Update => {
            let o = match old_str {
                Some(o) => o,
                None => return Err(invalid_params(String::from_str("update には old_str が必須です"))),
            };
            let n = match new_str {
                Some(n) => n,
                None => return Err(invalid_params(String::from_str("update には new_str が必須です"))),
            };
            let e = match existing {
                Some(e) => e,
                None => return Err(missing_artifact(id)),
            };
            match unique_replacement(e.content.as_str(), o.as_str(), n.as_str()) {
                Ok(t) => Ok(ArtifactData {
                    id: e.id,
                    content_type: e.content_type,
                    title: e.title,
                    content: t,
                    language: e.language,
                    modules: e.modules,
                    locked_while_open: lock,
                    created_at: e.created_at,
                    updated_at: now,
                }),
                Err(count) => if count == 0 {
                    Err(invalid_params(String::from_str("old_str がアーティファクト内に見つかりません")))
                } else {
                    Err(invalid_params(String::from_str(
                        "old_str がアーティファクト内に複数箇所存在します。より長い文字列を指定してください",
                    )))
                },
            }
        },
        WriteInput::Rewrite { content } => {
            let e = match existing {
                Some(e) => e,
                None => return Err(missing_artifact(id)),
            };
            Ok(ArtifactData {
                id: e.id,
                content_type: e.content_type,
                title: e.title,
                content,
                language: e.language,
                modules: e.modules,
                locked_while_open: lock,
                created_at: e.created_at,
                updated_at: now,
            })
        },
    }
}

/// The message for a write refused while the artifact is open in the viewer.
pub open spec fn locked_message(id: Seq<char>) -> Seq<char> {
    "アーティファクト '"@ + id + "' は locked_while_open が立っており、いま oretachi のビューアで開かれているため書き込めません。リトライしても開いている限り成功しません。ユーザーにビューアのウィンドウを閉じてもらってから書き込んでください（読み取りの get / outline / artifact_store command=read は今も使えます）"@
}

/// Refuses a write to an artifact whose lock flag is set while it is open in the viewer.
pub fn ensure_artifact_unlocked(artifact_id: &str, locked_while_open: Option<bool>, is_open: bool) -> (r: Result<(), ToolError>)
    ensures
        r is Ok <==> !(locked_while_open == Some(true) && is_open),
        r matches Err(e) ==> e.kind == ToolErrorKind::InvalidParams && e.message@ == locked_message(artifact_id@),
{
    if locked_while_open != Some(true) || !is_open {
        return Ok(());
    }
    let mut m = String::from_str("アーティファクト '");
    m.append(artifact_id);
    m.append("' は locked_while_open が立っており、いま oretachi のビューアで開かれているため書き込めません。リトライしても開いている限り成功しません。ユーザーにビューアのウィンドウを閉じてもらってから書き込んでください（読み取りの get / outline / artifact_store command=read は今も使えます）");
    proof {
        reveal_strlit("アーティファクト '");
        reveal_strlit("' は locked_while_open が立っており、いま oretachi のビューアで開かれているため書き込めません。リトライしても開いている限り成功しません。ユーザーにビューアのウィンドウを閉じてもらってから書き込んでください（読み取りの get / outline / artifact_store command=read は今も使えます）");
    }
    Err(invalid_params(m))
}


/// The one content type whose artifacts have modules.
pub open spec fn react_type() -> Seq<char> {
    "application/vnd.ant.react"@
}

/// Refuses module commands on an artifact that is not a React artifact.
pub fn ensure_react_artifact(data: &ArtifactData) -> (r: Result<(), ToolError>)
    ensures
        r is Ok <==> data.content_type@ == react_type(),
        r matches Err(e) ==> e.kind == ToolErrorKind::InvalidParams
            && e.message@ == "artifact_module は application/vnd.ant.react のみ対象です (現在: "@ + data.content_type@ + ")"@,
{
    if crate::text::str_eq(data.content_type.as_str(), "application/vnd.ant.react") {
        return Ok(());
    }
    let mut m = String::from_str("artifact_module は application/vnd.ant.react のみ対象です (現在: ");
    m.append(data.content_type.as_str());
    m.append(")");
    proof {
        reveal_strlit("artifact_module は application/vnd.ant.react のみ対象です (現在: ");
        reveal_strlit(")");
    }
    Err(invalid_params(m))
}

/// The module name a module command needs, checked.
pub fn require_module_name(module_name: Option<String>) -> (r: Result<String, ToolError>)
    ensures
        match module_name {
            None => r matches Err(e) && e.kind == ToolErrorKind::InvalidParams && e.message@ == "module_name が必要です"@,
            Some(n) => if bad_module_name(n@) {
                r matches Err(e) && e.kind == ToolErrorKind::InvalidParams && e.message@ == bad_module_name_message(n@)
            } else {
                r == Ok::<String, ToolError>(n)
            },
        },
{
    match module_name {
        None => Err(invalid_params(String::from_str("module_name が必要です"))),
        Some(n) => match validate_module_name(n.as_str()) {
            Ok(()) => Ok(n),
            Err(e) => Err(e),
        },
    }
}

/// The message for a module that does not exist.
pub open spec fn missing_module_message(name: Seq<char>) -> Seq<char> {
    "モジュール '"@ + name + "' が存在しません"@
}

fn missing_module(name: &str) -> (r: ToolError)
    ensures
        r.kind == ToolErrorKind::InvalidParams,
        r.message@ == missing_module_message(name@),
{
    let mut m = String::from_str("モジュール '");
    m.append(name);
    m.append("' が存在しません");
    proof {
        reveal_strlit("モジュール '");
        reveal_strlit("' が存在しません");
    }
    invalid_params(m)
}

/// Reads a window of module `name` (see `read_window`).
pub fn module_window(data: &ArtifactData, name: &str, offset: Option<u32>, limit: Option<u32>) -> (r: Result<LineWindow, ToolError>)
    ensures
        match r {
            Ok(w) => module_map(data.modules@).contains_key(name@) && {
                let src = module_map(data.modules@)[name@];
                &&& w.content@ == content_window(src, offset, limit)
                &&& w.total_lines == text_lines(src).len()
                &&& w.offset as int == match offset { Some(o) => o as int, None => 0int }
            },
            Err(e) => !module_map(data.modules@).contains_key(name@)
                && e.kind == ToolErrorKind::InvalidParams && e.message@ == missing_module_message(name@),
        },
{
    match module_source(&data.modules, name) {
        Some(src) => Ok(read_window(src.as_str(), offset, limit)),
        None => Err(missing_module(name)),
    }
}

/// Refuses to create a module that already exists.
pub fn ensure_new_module(data: &ArtifactData, name: &str) -> (r: Result<(), ToolError>)
    ensures
        r is Ok <==> !module_map(data.modules@).contains_key(name@),
        r matches Err(e) ==> e.kind == ToolErrorKind::InvalidParams
            && e.message@ == "モジュール '"@ + name@ + "' は既に存在します。上書きするには rewrite を使用してください"@,
{
    match module_source(&data.modules, name) {
        None => Ok(()),
        Some(_) => {
            let mut m = String::from_str("モジュール '");
            m.append(name);
            m.append("' は既に存在します。上書きするには rewrite を使用してください");
            proof {
                reveal_strlit("モジュール '");
                reveal_strlit("' は既に存在します。上書きするには rewrite を使用してください");
            }
            Err(invalid_params(m))
        },
    }
}

/// `d` is `e` with other modules and a new update time.
pub open spec fn modules_changed(d: ArtifactData, e: ArtifactData, modules: Map<Seq<char>, Seq<char>>, now: u64) -> bool {
    &&& d.id == e.id
    &&& d.content_type == e.content_type
    &&& d.title == e.title
    &&& d.content == e.content
    &&& d.language == e.language
    &&& module_map(d.modules@) == modules
    &&& d.locked_while_open == e.locked_while_open
    &&& d.created_at == e.created_at
    &&& d.updated_at == now
}

/// Sets module `name` to `source`, creating it or replacing what it held.
pub fn put_module(data: &mut ArtifactData, name: &str, source: String, now: u64)
    ensures
        modules_changed(*final(data), *old(data), module_map(old(data).modules@).insert(name@, source@), now),
{
    let mut ms = modules_without(&data.modules, name);
    let ghost before = ms@;
    ms.push(ModuleSource { name: String::from_str(name), source });
    assert(ms@.drop_last() == before);
    assert(module_map(ms@) =~= module_map(old(data).modules@).insert(name@, source@));
    data.modules = ms;
    data.updated_at = now;
}

/// Removes module `name`.
pub fn delete_module(data: &mut ArtifactData, name: &str, now: u64) -> (r: Result<(), ToolError>)
    ensures
        r is Ok <==> module_map(old(data).modules@).contains_key(name@),
        r is Ok ==> modules_changed(*final(data), *old(data), module_map(old(data).modules@).remove(name@), now),
        r matches Err(e) ==> *final(data) == *old(data) && e.kind == ToolErrorKind::InvalidParams
            && e.message@ == missing_module_message(name@),
{
    if module_source(&data.modules, name).is_none() {
        return Err(missing_module(name));
    }
    let ms = modules_without(&data.modules, name);
    data.modules = ms;
    data.updated_at = now;
    Ok(())
}

/// The message for an `old_str` that a module holds `count` times (not once).
pub open spec fn module_match_message(name: Seq<char>, count: nat) -> Seq<char> {
    if count == 0 {
        "old_str がモジュール '"@ + name + "' 内に見つかりません"@
    } else {
        "old_str がモジュール '"@ + name + "' 内に"@ + crate::text::decimal(count) + "箇所あります。1箇所だけにしてください"@
    }
}

/// Replaces the one occurrence of `old_str` in module `name` by `new_str`.
pub fn update_module(data: &mut ArtifactData, name: &str, old_str: Option<String>, new_str: Option<String>, now: u64) -> (r: Result<(), ToolError>)
    ensures
        r is Err ==> *final(data) == *old(data),
        match (old_str, new_str) {
            (None, _) => r matches Err(e) && e.kind == ToolErrorKind::InvalidParams && e.message@ == "old_str が必要です"@,
            (Some(_), None) => r matches Err(e) && e.kind == ToolErrorKind::InvalidParams && e.message@ == "new_str が必要です"@,
            (Some(o), Some(n)) => {
                let m = module_map(old(data).modules@);
                if !m.contains_key(name@) {
                    r matches Err(e) && e.kind == ToolErrorKind::InvalidParams && e.message@ == missing_module_message(name@)
                } else if match_count(m[name@], o@) != 1 {
                    r matches Err(e) && e.kind == ToolErrorKind::InvalidParams
                        && e.message@ == module_match_message(name@, match_count(m[name@], o@))
                } else {
                    r is Ok && modules_changed(*final(data), *old(data), m.insert(name@, replaced_first(m[name@], o@, n@)), now)
                }
            },
        },
{
    let o = match old_str {
        Some(o) => o,
        None => return Err(invalid_params(String::from_str("old_str が必要です"))),
    };
    let n = match new_str {
        Some(n) => n,
        None => return Err(invalid_params(String::from_str("new_str が必要です"))),
    };
    let replaced = match module_source(&data.modules, name) {
        None => return Err(missing_module(name)),
        Some(src) => unique_replacement(src.as_str(), o.as_str(), n.as_str()),
    };
    match replaced {
        Ok(t) => {
            put_module(data, name, t, now);
            Ok(())
        },
        Err(count) => {
            let mut m = String::from_str("old_str がモジュール '");
            m.append(name);
            proof { reveal_strlit("old_str がモジュール '"); }
            if count == 0 {
                m.append("' 内に見つかりません");
                proof { reveal_strlit("' 内に見つかりません"); }
            } else {
                m.append("' 内に");
                let digits = crate::text::decimal_chars_wide(count);
                let ds = string_of(digits.as_slice());
                m.append(ds.as_str());
                m.append("箇所あります。1箇所だけにしてください");
                proof {
                    reveal_strlit("' 内に");
                    reveal_strlit("箇所あります。1箇所だけにしてください");
                }
            }
            Err(invalid_params(m))
        },
    }
}


/// A module reads back, whole, what was last written to it; a deleted module reads as missing;
/// and writing or deleting one module leaves every other module as it was.
pub proof fn lemma_module_write_then_read(ms: Seq<ModuleSource>, name: Seq<char>, src: Seq<char>, other: Seq<char>)
    ensures
        module_map(ms).insert(name, src).contains_key(name),
        content_window(module_map(ms).insert(name, src)[name], None, None) == src,
        !module_map(ms).remove(name).contains_key(name),
        other != name ==> module_map(ms).insert(name, src).contains_key(other) == module_map(ms).contains_key(other),
        other != name ==> module_map(ms).remove(name).contains_key(other) == module_map(ms).contains_key(other),
        other != name && module_map(ms).contains_key(other) ==>
            module_map(ms).insert(name, src)[other] == module_map(ms)[other]
            && module_map(ms).remove(name)[other] == module_map(ms)[other],
{
}


/// A path component the UI hands over (a worktree id) that could leave its directory:
/// holding `..`, a path separator, NUL or a drive colon.
pub open spec fn bad_path_component(s: Seq<char>) -> bool {
    ||| contains_seq(s, seq!['.', '.'])
    ||| s.contains('/')
    ||| s.contains('\\')
    ||| s.contains('\0')
    ||| s.contains(':')
}

/// Checks a path component before it is joined under the application's data directory.
pub fn validate_path_component(s: &str) -> (r: Result<(), String>)
    ensures
        r is Ok <==> !bad_path_component(s@),
        r matches Err(m) ==> m@ == "不正なパス文字が含まれています: "@ + s@,
{
    let cs = chars_of(s);
    let dots: [char; 2] = ['.', '.'];
    assert(dots@ == seq!['.', '.']);
    if chars_contains(cs.as_slice(), dots.as_slice()) || chars_has(cs.as_slice(), '/')
        || chars_has(cs.as_slice(), '\\') || chars_has(cs.as_slice(), '\0') || chars_has(cs.as_slice(), ':')
    {
        let mut m = String::from_str("不正なパス文字が含まれています: ");
        m.append(s);
        proof { reveal_strlit("不正なパス文字が含まれています: "); }
        return Err(m);
    }
    Ok(())
}

/// The largest source file (bytes) that `file_path` may name.
pub const ARTIFACT_SOURCE_FILE_MAX_BYTES: u64 = 1048576;

/// Where a source file is read from: an absolute path, or a path relative to `base`.
#[derive(Debug)]
pub enum SourcePath {
    Absolute(String),
    Relative { base: String, rel: String },
}

/// An ASCII letter.
pub open spec fn ascii_alpha(c: char) -> bool {
    ('a' <= c && c <= 'z') || ('A' <= c && c <= 'Z')
}

/// What `check_source_path` answers for `file_path`, trimmed to `t`, with `absolute` telling
/// whether the platform takes `t` for an absolute path.
pub open spec fn source_path_is(r: Result<SourcePath, ToolError>, base_dir: Seq<char>, file_path: Seq<char>, absolute: bool) -> bool {
    let t = trim(file_path);
    let drive_relative = t.len() >= 2 && t[1] == ':' && ascii_alpha(t[0]) && !absolute;
    let root_relative = !absolute && t.len() > 0 && (t[0] == '/' || t[0] == '\\');
    if t.len() == 0 {
        r matches Err(e) && e.kind == ToolErrorKind::InvalidParams && e.message@ == "file_path が空です"@
    } else if drive_relative || root_relative {
        r matches Err(e) && e.kind == ToolErrorKind::InvalidParams && e.message@ == "file_path '"@ + file_path
            + "' はドライブ相対／ルート相対パスです。絶対パス、または追加先ディレクトリ基準の相対パスを指定してください"@
    } else if !absolute && trim(base_dir).len() == 0 {
        r matches Err(e) && e.kind == ToolErrorKind::InvalidParams && e.message@ == "file_path '"@ + file_path
            + "' は相対パスですが、相対解決の基準になるワークツリー追加先ディレクトリが未設定です。絶対パスを指定してください"@
    } else if absolute {
        r matches Ok(SourcePath::Absolute(p)) && p@ == t
    } else {
        r matches Ok(SourcePath::Relative { base, rel }) && base@ == base_dir && rel@ == t
    }
}

/// Checks a source path before anything is read: not blank; not drive-relative (`C:foo`) or
/// root-relative (`\bar`), which would drop the base directory; and relative only when a
/// base directory is set. `absolute` says whether the platform takes the trimmed path for
/// absolute.
pub fn check_source_path(base_dir: &str, file_path: &str, absolute: bool) -> (r: Result<SourcePath, ToolError>)
    ensures
        source_path_is(r, base_dir@, file_path@, absolute),
{
    let t = crate::text::str_trim(file_path);
    if t.len() == 0 {
        return Err(invalid_params(String::from_str("file_path が空です")));
    }
    let c0 = t[0];
    let drive_relative = t.len() >= 2 && t[1] == ':'
        && (('a' <= c0 && c0 <= 'z') || ('A' <= c0 && c0 <= 'Z')) && !absolute;
    let root_relative = !absolute && (c0 == '/' || c0 == '\\');
    if drive_relative || root_relative {
        let mut m = String::from_str("file_path '");
        m.append(file_path);
        m.append("' はドライブ相対／ルート相対パスです。絶対パス、または追加先ディレクトリ基準の相対パスを指定してください");
        proof {
            reveal_strlit("file_path '");
            reveal_strlit("' はドライブ相対／ルート相対パスです。絶対パス、または追加先ディレクトリ基準の相対パスを指定してください");
        }
        return Err(invalid_params(m));
    }
    if !absolute && crate::text::str_trim(base_dir).len() == 0 {
        let mut m = String::from_str("file_path '");
        m.append(file_path);
        m.append("' は相対パスですが、相対解決の基準になるワークツリー追加先ディレクトリが未設定です。絶対パスを指定してください");
        proof {
            reveal_strlit("file_path '");
            reveal_strlit("' は相対パスですが、相対解決の基準になるワークツリー追加先ディレクトリが未設定です。絶対パスを指定してください");
        }
        return Err(invalid_params(m));
    }
    if absolute {
        Ok(SourcePath::Absolute(string_of(t.as_slice())))
    } else {
        Ok(SourcePath::Relative { base: String::from_str(base_dir), rel: string_of(t.as_slice()) })
    }
}

/// A checked source path, with the platform's answer it rests on.
#[derive(Debug)]
pub struct SourcePathPlan {
    /// The platform's answer to whether the trimmed path is absolute.
    pub answer: AbsoluteAnswer,
    pub outcome: Result<SourcePath, ToolError>,
}

/// Checks a source path, asking the platform whether the trimmed path is absolute: the
/// question is the trimmed `file_path`, and the outcome is what [`check_source_path`] gives
/// for the answer.
pub fn plan_source_path(base_dir: &str, file_path: &str) -> (r: SourcePathPlan)
    ensures
        r.answer.path() == trim(file_path@),
        r.answer.absolute() ==> absolute_shape(trim(file_path@)),
        source_path_is(r.outcome, base_dir@, file_path@, r.answer.absolute()),
{
    let t = string_of(crate::text::str_trim(file_path).as_slice());
    let answer = ask_is_absolute(t.as_str());
    let outcome = check_source_path(base_dir, file_path, answer.is_absolute());
    SourcePathPlan { answer, outcome }
}

/// The refusal of a source path outside every allowed root, listing the roots.
pub open spec fn outside_roots_message(file_path: Seq<char>, roots: Seq<Seq<char>>) -> Seq<char> {
    "file_path '"@ + file_path
        + "' は読み取りを許可された範囲の外です。ワークツリー追加先ディレクトリ配下、または oretachi プラグインディレクトリ配下のファイルだけを指定できます（許可ルート: "@
        + join_with(roots, ", "@) + "）"@
}

/// Whether a resolved source path lies under an allowed root, with the platform's answers it
/// rests on.
#[derive(Debug)]
pub struct RootsCheck {
    pub answers: Vec<PrefixAnswer>,
    pub outcome: Result<(), ToolError>,
}

/// Checks that the resolved (canonical) path of a source file lies under one of the allowed
/// roots (the roots that resolved, canonical too): the roots are asked in order whether they
/// are a prefix of the path in whole components, up to the first that is; when none is, and
/// so always when no root resolved, the path is refused with the list of roots.
pub fn check_within_roots(file_path: &str, resolved: &str, roots: &Vec<String>) -> (r: RootsCheck)
    ensures
        r.answers@.len() <= roots@.len(),
        forall|k: int| 0 <= k < r.answers@.len() ==> (#[trigger] r.answers@[k]).dir() == resolved@
            && r.answers@[k].base() == roots@[k]@,
        forall|k: int| 0 <= k < r.answers@.len() - 1 ==> !(#[trigger] r.answers@[k]).accepted(),
        match r.outcome {
            Ok(_) => r.answers@.len() > 0 && r.answers@.last().accepted(),
            Err(e) => r.answers@.len() == roots@.len()
                && (forall|k: int| 0 <= k < r.answers@.len() ==> !(#[trigger] r.answers@[k]).accepted())
                && e.kind == ToolErrorKind::InvalidParams
                && e.message@ == outside_roots_message(file_path@, crate::targets::sviews(roots@)),
        },
{
    let mut answers: Vec<PrefixAnswer> = Vec::new();
    let mut i: usize = 0;
    while i < roots.len()
        invariant
            i <= roots@.len(),
            answers@.len() == i,
            forall|k: int| 0 <= k < i ==> (#[trigger] answers@[k]).dir() == resolved@
                && answers@[k].base() == roots@[k]@ && !answers@[k].accepted(),
        decreases roots@.len() - i,
    {
        let a = ask_starts_with(resolved, roots[i].as_str());
        let accepted = a.is_accepted();
        answers.push(a);
        if accepted {
            return RootsCheck { answers, outcome: Ok(()) };
        }
        i = i + 1;
    }
    let mut names: Vec<Vec<char>> = Vec::new();
    let mut j: usize = 0;
    while j < roots.len()
        invariant
            j <= roots@.len(),
            vviews(names@) == crate::targets::sviews(roots@).take(j as int),
        decreases roots@.len() - j,
    {
        let ghost before = names@;
        names.push(chars_of(roots[j].as_str()));
        assert(vviews(names@) =~= vviews(before).push(roots@[j as int]@));
        assert(crate::targets::sviews(roots@).take(j + 1)
            =~= crate::targets::sviews(roots@).take(j as int).push(roots@[j as int]@));
        j = j + 1;
    }
    assert(crate::targets::sviews(roots@).take(roots@.len() as int) =~= crate::targets::sviews(roots@));
    let sep = chars_of(", ");
    let joined = chars_join(&names, sep.as_slice());
    let mut m = String::from_str("file_path '");
    m.append(file_path);
    m.append("' は読み取りを許可された範囲の外です。ワークツリー追加先ディレクトリ配下、または oretachi プラグインディレクトリ配下のファイルだけを指定できます（許可ルート: ");
    m.append(string_of(joined.as_slice()).as_str());
    m.append("）");
    proof {
        reveal_strlit("file_path '");
        reveal_strlit("' は読み取りを許可された範囲の外です。ワークツリー追加先ディレクトリ配下、または oretachi プラグインディレクトリ配下のファイルだけを指定できます（許可ルート: ");
        reveal_strlit("）");
        reveal_strlit(", ");
    }
    RootsCheck { answers, outcome: Err(invalid_params(m)) }
}

/// Checks what the file system says of a resolved source path: a file, of at most the
/// largest size.
pub fn check_source_file(file_path: &str, is_file: bool, len: u64) -> (r: Result<(), ToolError>)
    ensures
        r is Ok <==> is_file && len <= ARTIFACT_SOURCE_FILE_MAX_BYTES,
        !is_file ==> (r matches Err(e) && e.kind == ToolErrorKind::InvalidParams
            && e.message@ == "file_path '"@ + file_path@ + "' はファイルではありません"@),
        is_file && len > ARTIFACT_SOURCE_FILE_MAX_BYTES ==> (r matches Err(e) && e.kind == ToolErrorKind::InvalidParams
            && e.message@ == "file_path '"@ + file_path@ + "' は "@ + crate::text::decimal(len as nat)
                + " バイトあり、上限 "@ + crate::text::decimal(ARTIFACT_SOURCE_FILE_MAX_BYTES as nat) + " バイトを超えています"@),
{
    if !is_file {
        let mut m = String::from_str("file_path '");
        m.append(file_path);
        m.append("' はファイルではありません");
        proof {
            reveal_strlit("file_path '");
            reveal_strlit("' はファイルではありません");
        }
        return Err(invalid_params(m));
    }
    if len > ARTIFACT_SOURCE_FILE_MAX_BYTES {
        let mut m = String::from_str("file_path '");
        m.append(file_path);
        m.append("' は ");
        m.append(string_of(crate::text::decimal_chars(len).as_slice()).as_str());
        m.append(" バイトあり、上限 ");
        m.append(string_of(crate::text::decimal_chars(ARTIFACT_SOURCE_FILE_MAX_BYTES).as_slice()).as_str());
        m.append(" バイトを超えています");
        proof {
            reveal_strlit("file_path '");
            reveal_strlit("' は ");
            reveal_strlit(" バイトあり、上限 ");
            reveal_strlit(" バイトを超えています");
        }
        return Err(invalid_params(m));
    }
    Ok(())
}

/// The UTF-8 byte order mark.
pub open spec fn utf8_bom() -> Seq<u8> {
    seq![0xEFu8, 0xBBu8, 0xBFu8]
}

/// std `String::from_utf8`: the text the bytes encode when they are valid UTF-8.
#[verifier::external_body]
fn utf8_text(bytes: Vec<u8>) -> (r: Option<String>)
    ensures
        r is Some <==> valid_utf8(bytes@),
        r matches Some(s) ==> s@ == decode_utf8(bytes@),
{
    String::from_utf8(bytes).ok()
}

/// The bytes of a source file without a leading byte order mark.
pub open spec fn without_bom(b: Seq<u8>) -> Seq<u8> {
    if b.len() >= 3 && b.take(3) == utf8_bom() { b.skip(3) } else { b }
}

/// The text of a source file: its bytes, a leading byte order mark dropped, read as UTF-8;
/// an error when they are not valid UTF-8.
pub fn decode_source(file_path: &str, bytes: Vec<u8>) -> (r: Result<String, ToolError>)
    ensures
        r is Ok <==> valid_utf8(without_bom(bytes@)),
        r matches Ok(s) ==> s@ == decode_utf8(without_bom(bytes@)),
        r matches Err(e) ==> e.kind == ToolErrorKind::InvalidParams && e.message@ == "file_path '"@ + file_path@
            + "' は UTF-8 として読めません。UTF-8 で保存されたテキストファイルを指定してください"@,
{
    let has_bom = bytes.len() >= 3 && bytes[0] == 0xEFu8 && bytes[1] == 0xBBu8 && bytes[2] == 0xBFu8;
    let body: Vec<u8> = if has_bom {
        let mut out: Vec<u8> = Vec::new();
        let mut i: usize = 3;
        while i < bytes.len()
            invariant
                3 <= i <= bytes.len(),
                out@ == bytes@.subrange(3, i as int),
            decreases bytes.len() - i,
        {
            out.push(bytes[i]);
            assert(bytes@.subrange(3, i + 1) == bytes@.subrange(3, i as int).push(bytes@[i as int]));
            i = i + 1;
        }
        assert(bytes@.take(3) =~= utf8_bom());
        out
    } else {
        proof {
            if bytes@.len() >= 3 && bytes@.take(3) == utf8_bom() {
                assert(bytes@[0] == bytes@.take(3)[0]);
                assert(bytes@[1] == bytes@.take(3)[1]);
                assert(bytes@[2] == bytes@.take(3)[2]);
            }
        }
        bytes
    };
    match utf8_text(body) {
        Some(s) => Ok(s),
        None => {
            let mut m = String::from_str("file_path '");
            m.append(file_path);
            m.append("' は UTF-8 として読めません。UTF-8 で保存されたテキストファイルを指定してください");
            proof {
                reveal_strlit("file_path '");
                reveal_strlit("' は UTF-8 として読めません。UTF-8 で保存されたテキストファイルを指定してください");
            }
            Err(invalid_params(m))
        },
    }
}


/// A module's name and its line count.
#[derive(Debug)]
pub struct ModuleLines {
    pub name: String,
    pub lines: usize,
}

/// The names in a module listing.
pub open spec fn listed_names(v: Seq<ModuleLines>) -> Seq<Seq<char>> {
    v.map_values(|m: ModuleLines| m.name@)
}

/// A listing of the modules: one entry per module, sorted by name, with its line count.
pub open spec fn module_listing(r: Seq<ModuleLines>, ms: Seq<ModuleSource>) -> bool {
    let m = module_map(ms);
    &&& forall|i: int, j: int| 0 <= i < j < r.len() ==> text_less(#[trigger] r[i].name@, #[trigger] r[j].name@)
    &&& forall|k: Seq<char>| m.contains_key(k) <==> #[trigger] listed_names(r).contains(k)
    &&& forall|i: int| 0 <= i < r.len() ==> #[trigger] r[i].lines == text_lines(m[r[i].name@]).len()
}

proof fn lemma_module_map_keys(ms: Seq<ModuleSource>, k: Seq<char>)
    ensures
        module_map(ms).contains_key(k) <==> exists|i: int| 0 <= i < ms.len() && #[trigger] ms[i].name@ == k,
    decreases ms.len(),
{
    if ms.len() > 0 {
        lemma_module_map_keys(ms.drop_last(), k);
        if module_map(ms.drop_last()).contains_key(k) {
            let i = choose|i: int| 0 <= i < ms.drop_last().len() && #[trigger] ms.drop_last()[i].name@ == k;
            assert(ms[i].name@ == k);
        }
        if exists|i: int| 0 <= i < ms.len() && #[trigger] ms[i].name@ == k {
            let i = choose|i: int| 0 <= i < ms.len() && #[trigger] ms[i].name@ == k;
            if i < ms.len() - 1 {
                assert(ms.drop_last()[i].name@ == k);
            }
        }
    }
}

/// The modules listed by name in sorted order, each with its line count.
pub fn list_modules(ms: &Vec<ModuleSource>) -> (r: Vec<ModuleLines>)
    ensures
        module_listing(r@, ms@),
{
    let ghost m = module_map(ms@);
    let mut out: Vec<ModuleLines> = Vec::new();
    let mut i: usize = 0;
    while i < ms.len()
        invariant
            i <= ms.len(),
            m == module_map(ms@),
            forall|a: int, b: int| 0 <= a < b < out@.len() ==> text_less(#[trigger] out@[a].name@, #[trigger] out@[b].name@),
            forall|k: Seq<char>| (exists|j: int| 0 <= j < i && #[trigger] ms@[j].name@ == k) <==> #[trigger] listed_names(out@).contains(k),
            forall|a: int| 0 <= a < out@.len() ==> #[trigger] out@[a].lines == text_lines(m[out@[a].name@]).len(),
            forall|a: int| 0 <= a < out@.len() ==> m.contains_key(#[trigger] out@[a].name@),
        decreases ms.len() - i,
    {
        let name = &ms[i].name;
        let nc = chars_of(name.as_str());
        proof { lemma_module_map_keys(ms@, name@); }
        // is it listed already?
        let mut pos: usize = 0;
        let mut present = false;
        loop
            invariant_except_break
                pos <= out@.len(),
                nc@ == name@,
                !present,
                forall|a: int| 0 <= a < pos ==> text_less(#[trigger] out@[a].name@, name@),
            ensures
                pos <= out@.len(),
                forall|a: int| 0 <= a < pos ==> text_less(#[trigger] out@[a].name@, name@),
                pos < out@.len() ==> !text_less(out@[pos as int].name@, name@) && present == (out@[pos as int].name@ == name@),
                pos == out@.len() ==> !present,
            decreases out@.len() - pos,
        {
            if pos == out.len() {
                break;
            }
            let oc = chars_of(out[pos].name.as_str());
            if !chars_less(oc.as_slice(), nc.as_slice()) {
                present = crate::text::chars_eq(oc.as_slice(), nc.as_slice());
                break;
            }
            pos = pos + 1;
        }
        proof {
            if !present && pos < out@.len() {
                lemma_text_less_total(out@[pos as int].name@, name@);
            }
        }
        if !present {
            let src = match module_source(ms, name.as_str()) {
                Some(s) => s,
                None => {
                    assert(false);
                    return out;
                },
            };
            let lines = lines_of(chars_of(src.as_str()).as_slice()).len();
            let ghost before = out@;
            out.insert(pos, ModuleLines { name: name.clone(), lines });
            proof {
                assert forall|a: int, b: int| 0 <= a < b < out@.len() implies text_less(#[trigger] out@[a].name@, #[trigger] out@[b].name@) by {
                    if b == pos {
                        assert(out@[a] == before[a]);
                    } else if a == pos {
                        assert(out@[b] == before[b - 1]);
                        if b - 1 > pos {
                            lemma_text_less_transitive(name@, before[pos as int].name@, before[b - 1].name@);
                        }
                    } else if a > pos {
                        assert(out@[a] == before[a - 1] && out@[b] == before[b - 1]);
                    } else if b > pos {
                        assert(out@[a] == before[a] && out@[b] == before[b - 1]);
                    } else {
                        assert(out@[a] == before[a] && out@[b] == before[b]);
                    }
                }
                assert forall|k: Seq<char>| (exists|j: int| 0 <= j < i + 1 && #[trigger] ms@[j].name@ == k) <==> #[trigger] listed_names(out@).contains(k) by {
                    if listed_names(out@).contains(k) {
                        let a = choose|a: int| 0 <= a < listed_names(out@).len() && listed_names(out@)[a] == k;
                        assert(listed_names(out@)[a] == out@[a].name@);
                        if a < pos {
                            assert(out@[a] == before[a]);
                            assert(listed_names(before)[a] == k);
                            assert(listed_names(before).contains(k));
                        } else if a > pos {
                            assert(out@[a] == before[a - 1]);
                            assert(listed_names(before)[a - 1] == k);
                            assert(listed_names(before).contains(k));
                        } else {
                            assert(ms@[i as int].name@ == k);
                        }
                    }
                    if exists|j: int| 0 <= j < i + 1 && #[trigger] ms@[j].name@ == k {
                        let j = choose|j: int| 0 <= j < i + 1 && #[trigger] ms@[j].name@ == k;
                        if j < i {
                            assert(listed_names(before).contains(k));
                            let b = choose|b: int| 0 <= b < listed_names(before).len() && listed_names(before)[b] == k;
                            let a = if b < pos { b } else { b + 1 };
                            assert(out@[a] == before[b]);
                            assert(listed_names(out@)[a] == k);
                        } else {
                            assert(listed_names(out@)[pos as int] == k);
                        }
                    }
                }
                assert forall|a: int| 0 <= a < out@.len() implies #[trigger] out@[a].lines == text_lines(m[out@[a].name@]).len() && m.contains_key(out@[a].name@) by {
                    if a < pos {
                        assert(out@[a] == before[a]);
                    } else if a > pos {
                        assert(out@[a] == before[a - 1]);
                    }
                }
            }
        } else {
            proof {
                assert(listed_names(out@)[pos as int] == name@);
                assert forall|k: Seq<char>| (exists|j: int| 0 <= j < i + 1 && #[trigger] ms@[j].name@ == k) <==> #[trigger] listed_names(out@).contains(k) by {
                    if exists|j: int| 0 <= j < i + 1 && #[trigger] ms@[j].name@ == k {
                        let j = choose|j: int| 0 <= j < i + 1 && #[trigger] ms@[j].name@ == k;
                        if j == i {
                            assert(listed_names(out@)[pos as int] == k);
                        }
                    }
                }
            }
        }
        i = i + 1;
    }
    proof {
        assert forall|k: Seq<char>| m.contains_key(k) <==> #[trigger] listed_names(out@).contains(k) by {
            lemma_module_map_keys(ms@, k);
        }
    }
    out
}


/// What a write command answers: a summary of the artifact, never its texts.
#[derive(Debug)]
pub struct MutationSummary {
    pub command: String,
    pub id: String,
    pub title: String,
    pub content_type: String,
    pub entry_lines: usize,
    pub modules: Vec<ModuleLines>,
    pub locked_while_open: Option<bool>,
    pub updated_at: u64,
    pub note: String,
}

/// The note a summary carries on how to see the texts.
pub open spec fn summary_note() -> Seq<char> {
    "中身は返しません。確認が必要なら artifact(command: \"outline\"/\"get\") / artifact_module(command: \"get\") を使ってください"@
}

fn copy_string(s: &String) -> (r: String)
    ensures
        r@ == s@,
{
    s.clone()
}

/// The summary of a write command on `data`: its identity, the line counts of its entry and
/// of each module (sorted by name), its lock flag and update time; no text of the artifact.
pub fn artifact_mutation_summary(command: &str, data: &ArtifactData) -> (r: MutationSummary)
    ensures
        r.command@ == command@,
        r.id@ == data.id@,
        r.title@ == data.title@,
        r.content_type@ == data.content_type@,
        r.entry_lines == text_lines(data.content@).len(),
        module_listing(r.modules@, data.modules@),
        r.locked_while_open == data.locked_while_open,
        r.updated_at == data.updated_at,
        r.note@ == summary_note(),
{
    let entry_lines = lines_of(chars_of(data.content.as_str()).as_slice()).len();
    MutationSummary {
        command: String::from_str(command),
        id: copy_string(&data.id),
        title: copy_string(&data.title),
        content_type: copy_string(&data.content_type),
        entry_lines,
        modules: list_modules(&data.modules),
        locked_while_open: data.locked_while_open,
        updated_at: data.updated_at,
        note: String::from_str("中身は返しません。確認が必要なら artifact(command: \"outline\"/\"get\") / artifact_module(command: \"get\") を使ってください"),
    }
}

/// A module in an outline: its name, line count and exported names.
#[derive(Debug)]
pub struct ModuleOutline {
    pub name: String,
    pub lines: usize,
    pub exports: Vec<String>,
}

/// The outline of an artifact: its identity, the entry's line count and exported names, and
/// each module's (sorted by name).
#[derive(Debug)]
pub struct ArtifactOutline {
    pub id: String,
    pub title: String,
    pub content_type: String,
    pub entry_lines: usize,
    pub entry_exports: Vec<String>,
    pub modules: Vec<ModuleOutline>,
}

/// The outline of `data`.
pub fn artifact_outline(data: &ArtifactData) -> (r: ArtifactOutline)
    ensures
        r.id@ == data.id@,
        r.title@ == data.title@,
        r.content_type@ == data.content_type@,
        r.entry_lines == text_lines(data.content@).len(),
        crate::targets::sviews(r.entry_exports@) == exported_names(data.content@),
        forall|i: int, j: int| 0 <= i < j < r.modules@.len() ==> text_less(#[trigger] r.modules@[i].name@, #[trigger] r.modules@[j].name@),
        forall|k: Seq<char>| module_map(data.modules@).contains_key(k)
            <==> exists|i: int| 0 <= i < r.modules@.len() && #[trigger] r.modules@[i].name@ == k,
        forall|i: int| 0 <= i < r.modules@.len() ==> {
            let src = module_map(data.modules@)[#[trigger] r.modules@[i].name@];
            &&& r.modules@[i].lines == text_lines(src).len()
            &&& crate::targets::sviews(r.modules@[i].exports@) == exported_names(src)
        },
{
    let listing = list_modules(&data.modules);
    let ghost m = module_map(data.modules@);
    let mut mods: Vec<ModuleOutline> = Vec::new();
    let mut i: usize = 0;
    while i < listing.len()
        invariant
            i <= listing@.len(),
            m == module_map(data.modules@),
            module_listing(listing@, data.modules@),
            mods@.len() == i,
            forall|a: int| 0 <= a < i ==> #[trigger] mods@[a].name@ == listing@[a].name@,
            forall|a: int| 0 <= a < i ==> {
                let src = m[#[trigger] mods@[a].name@];
                &&& mods@[a].lines == text_lines(src).len()
                &&& crate::targets::sviews(mods@[a].exports@) == exported_names(src)
            },
        decreases listing@.len() - i,
    {
        let name = &listing[i].name;
        assert(listed_names(listing@)[i as int] == name@);
        assert(listed_names(listing@).contains(name@));
        assert(m.contains_key(name@));
        let exports = match module_source(&data.modules, name.as_str()) {
            Some(src) => extract_exports(src.as_str()),
            None => Vec::new(),
        };
        mods.push(ModuleOutline { name: copy_string(name), lines: listing[i].lines, exports });
        i = i + 1;
    }
    proof {
        assert forall|k: Seq<char>| module_map(data.modules@).contains_key(k)
            <==> exists|i: int| 0 <= i < mods@.len() && #[trigger] mods@[i].name@ == k by {
            assert(listed_names(listing@).len() == listing@.len());
            if m.contains_key(k) {
                assert(listed_names(listing@).contains(k));
                let a = choose|a: int| 0 <= a < listed_names(listing@).len() && listed_names(listing@)[a] == k;
                assert(listed_names(listing@)[a] == listing@[a].name@);
                assert(mods@[a].name@ == listing@[a].name@);
                assert(mods@[a].name@ == k);
            }
            if exists|i: int| 0 <= i < mods@.len() && #[trigger] mods@[i].name@ == k {
                let a = choose|i: int| 0 <= i < mods@.len() && #[trigger] mods@[i].name@ == k;
                assert(mods@[a].name@ == listing@[a].name@);
                assert(listed_names(listing@)[a] == k);
                assert(listed_names(listing@).contains(k));
            }
        }
        assert forall|a: int, b: int| 0 <= a < b < mods@.len() implies text_less(#[trigger] mods@[a].name@, #[trigger] mods@[b].name@) by {
            assert(mods@[a].name@ == listing@[a].name@);
            assert(mods@[b].name@ == listing@[b].name@);
        }
    }
    let ghost mv = mods@;
    let r = ArtifactOutline {
        id: copy_string(&data.id),
        title: copy_string(&data.title),
        content_type: copy_string(&data.content_type),
        entry_lines: lines_of(chars_of(data.content.as_str()).as_slice()).len(),
        entry_exports: extract_exports(data.content.as_str()),
        modules: mods,
    };
    assert(r.modules@ == mv);
    assert forall|k: Seq<char>| module_map(data.modules@).contains_key(k)
        <==> exists|i: int| 0 <= i < r.modules@.len() && #[trigger] r.modules@[i].name@ == k by {
        if module_map(data.modules@).contains_key(k) {
            let a = choose|i: int| 0 <= i < mv.len() && #[trigger] mv[i].name@ == k;
            assert(r.modules@[a].name@ == k);
        }
    }
    r
}


/// Whether an artifact matches a search: every artifact without a query; else the query,
/// lowercased, occurs in its lowercased title, entry text, content type or language.
pub open spec fn matches_query(data: ArtifactData, query: Option<Seq<char>>) -> bool {
    match query {
        None => true,
        Some(q) => {
            let ql = crate::text::lowercase(q);
            let lang = match data.language { Some(l) => l@, None => Seq::<char>::empty() };
            ||| contains_seq(crate::text::lowercase(data.title@), ql)
            ||| contains_seq(crate::text::lowercase(data.content@), ql)
            ||| contains_seq(crate::text::lowercase(data.content_type@), ql)
            ||| contains_seq(crate::text::lowercase(lang), ql)
        },
    }
}

fn lowered_contains(text: &str, ql: &Vec<char>) -> (r: bool)
    ensures
        r == contains_seq(crate::text::lowercase(text@), ql@),
{
    let l = crate::text::to_lowercase(text);
    chars_contains(chars_of(l.as_str()).as_slice(), ql.as_slice())
}

/// Whether `data` matches the search `query` (case folded by Unicode lowercase).
pub fn artifact_matches_query(data: &ArtifactData, query: Option<&str>) -> (r: bool)
    ensures
        r == matches_query(*data, match query { Some(q) => Some(q@), None => None }),
{
    let q = match query {
        None => return true,
        Some(q) => q,
    };
    let ql = chars_of(crate::text::to_lowercase(q).as_str());
    let lang = match &data.language {
        Some(l) => l.as_str(),
        None => "",
    };
    proof {
        reveal_strlit("");
        assert(""@ =~= Seq::<char>::empty());
    }
    let a = lowered_contains(data.title.as_str(), &ql);
    let b = lowered_contains(data.content.as_str(), &ql);
    let c = lowered_contains(data.content_type.as_str(), &ql);
    let d = lowered_contains(lang, &ql);
    assert(lang@ == match data.language { Some(l) => l@, None => Seq::<char>::empty() });
    a || b || c || d
}

/// One hit of an artifact search.
#[derive(Debug)]
pub struct ArtifactMeta {
    pub id: String,
    pub content_type: String,
    pub title: String,
    pub created_at: u64,
    pub updated_at: u64,
    pub language: Option<String>,
}

/// Where a hit goes among hits sorted newest first: after every hit updated at the same
/// time or later.
pub open spec fn newest_first_slot(sorted: Seq<ArtifactMeta>, x: ArtifactMeta, k: int) -> int
    decreases sorted.len() - k,
{
    if k < 0 || k >= sorted.len() {
        sorted.len() as int
    } else if sorted[k].updated_at < x.updated_at {
        k
    } else {
        newest_first_slot(sorted, x, k + 1)
    }
}

/// Hits sorted newest first, hits updated at the same time kept in their order.
pub open spec fn newest_first(hits: Seq<ArtifactMeta>) -> Seq<ArtifactMeta>
    decreases hits.len(),
{
    if hits.len() == 0 {
        hits
    } else {
        let sorted = newest_first(hits.drop_last());
        sorted.insert(newest_first_slot(sorted, hits.last(), 0), hits.last())
    }
}

/// Sorts search hits newest first; hits updated at the same time keep their order.
pub fn sort_newest_first(hits: Vec<ArtifactMeta>) -> (r: Vec<ArtifactMeta>)
    ensures
        r@ == newest_first(hits@),
{
    let ghost all = hits@;
    assert(all.len() == hits.len());
    let mut rest = hits;
    let mut out: Vec<ArtifactMeta> = Vec::new();
    let mut i: usize = 0;
    assert(all.skip(0) == all);
    assert(all.take(0) =~= Seq::<ArtifactMeta>::empty());
    while rest.len() > 0
        invariant
            all.len() <= usize::MAX,
            i + rest@.len() == all.len(),
            rest@ == all.skip(i as int),
            out@ == newest_first(all.take(i as int)),
        decreases rest.len(),
    {
        let x = rest.remove(0);
        assert(x == all[i as int]);
        assert(rest@ =~= all.skip(i + 1));
        let ghost t = all.take(i + 1);
        assert(t.drop_last() == all.take(i as int));
        assert(t.last() == x);
        let mut k: usize = 0;
        while k < out.len() && out[k].updated_at >= x.updated_at
            invariant
                k <= out@.len(),
                newest_first_slot(out@, x, 0) == newest_first_slot(out@, x, k as int),
            decreases out@.len() - k,
        {
            k = k + 1;
        }
        out.insert(k, x);
        i = i + 1;
    }
    assert(all.take(i as int) == all);
    out
}

/// Sorting newest first keeps every hit and orders them by update time, newest first.
pub proof fn lemma_newest_first_is_ordered(hits: Seq<ArtifactMeta>)
    ensures
        newest_first(hits).len() == hits.len(),
        forall|a: int, b: int| 0 <= a < b < hits.len() ==>
            #[trigger] newest_first(hits)[a].updated_at >= #[trigger] newest_first(hits)[b].updated_at,
    decreases hits.len(),
{
    if hits.len() > 0 {
        let s = newest_first(hits.drop_last());
        let x = hits.last();
        lemma_newest_first_is_ordered(hits.drop_last());
        let k = newest_first_slot(s, x, 0);
        lemma_slot(s, x, 0);
        let r = s.insert(k, x);
        assert forall|a: int, b: int| 0 <= a < b < r.len() implies #[trigger] r[a].updated_at >= #[trigger] r[b].updated_at by {
            if a < k && b < k {
                assert(r[a] == s[a] && r[b] == s[b]);
            } else if a < k && b == k {
                assert(r[a] == s[a]);
            } else if a < k {
                assert(r[a] == s[a] && r[b] == s[b - 1]);
            } else if a == k {
                assert(r[b] == s[b - 1]);
            } else {
                assert(r[a] == s[a - 1] && r[b] == s[b - 1]);
            }
        }
    }
}

proof fn lemma_slot(s: Seq<ArtifactMeta>, x: ArtifactMeta, k: int)
    requires
        0 <= k <= s.len(),
        forall|a: int| 0 <= a < k ==> s[a].updated_at >= x.updated_at,
        forall|a: int, b: int| 0 <= a < b < s.len() ==> #[trigger] s[a].updated_at >= #[trigger] s[b].updated_at,
    ensures
        k <= newest_first_slot(s, x, k) <= s.len(),
        forall|a: int| 0 <= a < newest_first_slot(s, x, k) ==> s[a].updated_at >= x.updated_at,
        forall|a: int| newest_first_slot(s, x, k) <= a < s.len() ==> s[a].updated_at < x.updated_at,
    decreases s.len() - k,
{
    if k < s.len() {
        if s[k].updated_at < x.updated_at {
            assert forall|a: int| k <= a < s.len() implies s[a].updated_at < x.updated_at by {
                if a > k {
                    assert(s[k].updated_at >= s[a].updated_at);
                }
            }
        } else {
            lemma_slot(s, x, k + 1);
        }
    }
}


/// The value of a JSON number written with decimal digits only (as std prints an unsigned
/// integer), when it fits in a `u64`: what `serde_json::Value::as_u64` reads from it.
pub open spec fn digits_u64(t: Seq<char>) -> Option<u64> {
    if t.len() > 0 && all_digits(t) && digits_value(t) <= u64::MAX {
        Some(digits_value(t) as u64)
    } else {
        None
    }
}

fn parse_digits_u64(s: &[char]) -> (r: Option<u64>)
    ensures
        r == digits_u64(s@),
{
    if s.len() == 0 {
        return None;
    }
    let mut acc: u64 = 0;
    let mut i: usize = 0;
    while i < s.len()
        invariant
            i <= s@.len(),
            s@.len() > 0,
            acc == digits_value(s@.take(i as int)),
            forall|k: int| 0 <= k < i ==> is_digit(#[trigger] s@[k]),
        decreases s@.len() - i,
    {
        let c = s[i];
        if !('0' <= c && c <= '9') {
            assert(!is_digit(s@[i as int]));
            return None;
        }
        let v = (c as u64) - ('0' as u64);
        assert(s@.take(i + 1).drop_last() == s@.take(i as int));
        assert(s@.take(i + 1).last() == c);
        if acc > (u64::MAX - v) / 10 {
            proof {
                assert(acc * 10 + v > u64::MAX) by (nonlinear_arith)
                    requires acc > (u64::MAX - v) / 10, v <= 9;
                if all_digits(s@) {
                    lemma_digits_grow(s@, i + 1, s@.len() as int);
                    assert(s@.take(s@.len() as int) == s@);
                }
            }
            return None;
        }
        proof {
            assert(acc * 10 + v <= u64::MAX) by (nonlinear_arith)
                requires acc <= (u64::MAX - v) / 10, v <= 9;
        }
        acc = acc * 10 + v;
        i = i + 1;
    }
    assert(s@.take(s@.len() as int) == s@);
    Some(acc)
}

/// When an artifact in a listing was last updated: its `updated_at` member when that is an
/// unsigned integer, else 0.
pub open spec fn listing_time(v: JsonValue) -> u64 {
    match v {
        JsonValue::Object(es) => match lookup(es@, "updated_at"@) {
            Some(JsonValue::Number(t)) => match digits_u64(t@) {
                Some(n) => n,
                None => 0,
            },
            _ => 0,
        },
        _ => 0,
    }
}

/// When an artifact in a listing was last updated (see [`listing_time`]).
pub fn listing_updated_at(v: &JsonValue) -> (r: u64)
    ensures
        r == listing_time(*v),
{
    match v {
        JsonValue::Object(es) => match crate::json::get(es, "updated_at") {
            Some(JsonValue::Number(t)) => match parse_digits_u64(chars_of(t.as_str()).as_slice()) {
                Some(n) => n,
                None => 0,
            },
            _ => 0,
        },
        _ => 0,
    }
}

/// Where `x` goes among `sorted` (newest first): before the first one updated earlier.
pub open spec fn listing_slot(sorted: Seq<JsonValue>, x: JsonValue, k: int) -> int
    decreases sorted.len() - k,
{
    if k < 0 || k >= sorted.len() {
        sorted.len() as int
    } else if listing_time(sorted[k]) < listing_time(x) {
        k
    } else {
        listing_slot(sorted, x, k + 1)
    }
}

/// A listing sorted newest first, artifacts updated at the same time kept in their order.
pub open spec fn listing_newest_first(xs: Seq<JsonValue>) -> Seq<JsonValue>
    decreases xs.len(),
{
    if xs.len() == 0 {
        xs
    } else {
        let sorted = listing_newest_first(xs.drop_last());
        sorted.insert(listing_slot(sorted, xs.last(), 0), xs.last())
    }
}

/// Sorts an artifact listing newest first (by `updated_at`, 0 when missing); artifacts
/// updated at the same time keep their order.
pub fn sort_listing_newest_first(items: Vec<JsonValue>) -> (r: Vec<JsonValue>)
    ensures
        r@ == listing_newest_first(items@),
{
    let ghost all = items@;
    let mut rest = items;
    let mut out: Vec<JsonValue> = Vec::new();
    let mut times: Vec<u64> = Vec::new();
    let ghost mut i: int = 0;
    assert(all.skip(0) == all);
    assert(all.take(0) =~= Seq::<JsonValue>::empty());
    while rest.len() > 0
        invariant
            0 <= i <= all.len(),
            rest@ == all.skip(i),
            out@ == listing_newest_first(all.take(i)),
            times@.len() == out@.len(),
            forall|k: int| 0 <= k < out@.len() ==> times@[k] == listing_time(#[trigger] out@[k]),
        decreases rest@.len(),
    {
        let x = rest.remove(0);
        let xt = listing_updated_at(&x);
        proof {
            assert(x == all[i]);
            assert(rest@ =~= all.skip(i + 1));
            let t = all.take(i + 1);
            assert(t.drop_last() == all.take(i));
            assert(t.last() == x);
        }
        let mut k: usize = 0;
        while k < out.len() && times[k] >= xt
            invariant
                k <= out@.len(),
                times@.len() == out@.len(),
                forall|j: int| 0 <= j < out@.len() ==> times@[j] == listing_time(#[trigger] out@[j]),
                xt == listing_time(x),
                listing_slot(out@, x, 0) == listing_slot(out@, x, k as int),
            decreases out@.len() - k,
        {
            k = k + 1;
        }
        let ghost before = out@;
        let ghost tbefore = times@;
        out.insert(k, x);
        times.insert(k, xt);
        proof {
            assert forall|j: int| 0 <= j < out@.len() implies times@[j] == listing_time(#[trigger] out@[j]) by {
                if j < k {
                    assert(out@[j] == before[j] && times@[j] == tbefore[j]);
                } else if j > k {
                    assert(out@[j] == before[j - 1] && times@[j] == tbefore[j - 1]);
                }
            }
            i = i + 1;
        }
    }
    assert(all.take(i) == all);
    out
}

/// Sorting a listing newest first keeps every artifact and orders them by update time,
/// newest first.
pub proof fn lemma_listing_newest_first_is_ordered(xs: Seq<JsonValue>)
    ensures
        listing_newest_first(xs).len() == xs.len(),
        forall|a: int, b: int| 0 <= a < b < xs.len() ==>
            listing_time(#[trigger] listing_newest_first(xs)[a]) >= listing_time(#[trigger] listing_newest_first(xs)[b]),
    decreases xs.len(),
{
    if xs.len() > 0 {
        let s = listing_newest_first(xs.drop_last());
        let x = xs.last();
        lemma_listing_newest_first_is_ordered(xs.drop_last());
        let k = listing_slot(s, x, 0);
        lemma_listing_slot(s, x, 0);
        let r = s.insert(k, x);
        assert forall|a: int, b: int| 0 <= a < b < r.len() implies listing_time(#[trigger] r[a]) >= listing_time(#[trigger] r[b]) by {
            if a < k && b < k {
                assert(r[a] == s[a] && r[b] == s[b]);
            } else if a < k && b == k {
                assert(r[a] == s[a]);
            } else if a < k {
                assert(r[a] == s[a] && r[b] == s[b - 1]);
            } else if a == k {
                assert(r[b] == s[b - 1]);
            } else {
                assert(r[a] == s[a - 1] && r[b] == s[b - 1]);
            }
        }
    }
}

proof fn lemma_listing_slot(s: Seq<JsonValue>, x: JsonValue, k: int)
    requires
        0 <= k <= s.len(),
        forall|a: int| 0 <= a < k ==> listing_time(s[a]) >= listing_time(x),
        forall|a: int, b: int| 0 <= a < b < s.len() ==> listing_time(#[trigger] s[a]) >= listing_time(#[trigger] s[b]),
    ensures
        k <= listing_slot(s, x, k) <= s.len(),
        forall|a: int| 0 <= a < listing_slot(s, x, k) ==> listing_time(s[a]) >= listing_time(x),
        forall|a: int| listing_slot(s, x, k) <= a < s.len() ==> listing_time(s[a]) < listing_time(x),
    decreases s.len() - k,
{
    if k < s.len() {
        if listing_time(s[k]) < listing_time(x) {
            assert forall|a: int| k <= a < s.len() implies listing_time(s[a]) < listing_time(x) by {
                if a > k {
                    assert(listing_time(s[k]) >= listing_time(s[a]));
                }
            }
        } else {
            lemma_listing_slot(s, x, k + 1);
        }
    }
}

/// The search hit for an artifact.
pub fn artifact_meta(data: &ArtifactData) -> (r: ArtifactMeta)
    ensures
        r.id@ == data.id@,
        r.content_type@ == data.content_type@,
        r.title@ == data.title@,
        r.created_at == data.created_at,
        r.updated_at == data.updated_at,
        match (r.language, data.language) {
            (Some(a), Some(b)) => a@ == b@,
            (None, None) => true,
            _ => false,
        },
{
    ArtifactMeta {
        id: copy_string(&data.id),
        content_type: copy_string(&data.content_type),
        title: copy_string(&data.title),
        created_at: data.created_at,
        updated_at: data.updated_at,
        language: match &data.language {
            Some(l) => Some(copy_string(l)),
            None => None,
        },
    }
}

/// The commands of `artifact_store`.
#[derive(Clone, Copy, Debug, PartialEq, Eq)]
pub enum StoreCommand {
    Read,
    Write,
    Delete,
}

/// The store command named `command`.
pub fn store_command(command: &str) -> (r: Result<StoreCommand, ToolError>)
    ensures
        command@ == "read"@ ==> r == Ok::<StoreCommand, ToolError>(StoreCommand::Read),
        command@ == "write"@ ==> r == Ok::<StoreCommand, ToolError>(StoreCommand::Write),
        command@ == "delete"@ ==> r == Ok::<StoreCommand, ToolError>(StoreCommand::Delete),
        command@ != "read"@ && command@ != "write"@ && command@ != "delete"@ ==> (r matches Err(e)
            && e.kind == ToolErrorKind::InvalidParams
            && e.message@ == "不明なコマンド '"@ + command@ + "'. read / write / delete のいずれかを指定してください"@),
{
    proof {
        reveal_strlit("read");
        reveal_strlit("write");
        reveal_strlit("delete");
        assert("read"@.len() == 4 && "write"@.len() == 5 && "delete"@.len() == 6);
    }
    if crate::text::str_eq(command, "read") {
        Ok(StoreCommand::Read)
    } else if crate::text::str_eq(command, "write") {
        Ok(StoreCommand::Write)
    } else if crate::text::str_eq(command, "delete") {
        Ok(StoreCommand::Delete)
    } else {
        let mut m = String::from_str("不明なコマンド '");
        m.append(command);
        m.append("'. read / write / delete のいずれかを指定してください");
        proof {
            reveal_strlit("不明なコマンド '");
            reveal_strlit("'. read / write / delete のいずれかを指定してください");
        }
        Err(invalid_params(m))
    }
}

/// The data a store write needs.
pub fn store_write_data(data: Option<crate::json::JsonValue>) -> (r: Result<crate::json::JsonValue, ToolError>)
    ensures
        match data {
            Some(d) => r == Ok::<crate::json::JsonValue, ToolError>(d),
            None => r matches Err(e) && e.kind == ToolErrorKind::InvalidParams && e.message@ == "write には data が必須です"@,
        },
{
    match data {
        Some(d) => Ok(d),
        None => Err(invalid_params(String::from_str("write には data が必須です"))),
    }
}

} // verus!
