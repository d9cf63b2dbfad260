//! Workgroup names and the resolution of a workgroup given by id or by name.

use vstd::prelude::*;
use crate::settings::{AppSettings, Workgroup};
use crate::text::{
    chars_join, vviews, chars_of, str_eq, str_trim, string_of, decimal, decimal_chars, push_str, owned, trim, join_with,
};

verus! {

broadcast use vstd::string::group_string_axioms;

/// The ids of a list of workgroups.
pub open spec fn group_ids(ws: Seq<Workgroup>) -> Seq<Seq<char>> {
    ws.map_values(|g: Workgroup| g.id@)
}

/// The position of the first workgroup with id `id`.
pub open spec fn position_of(ws: Seq<Workgroup>, id: Seq<char>) -> Option<nat>
    decreases ws.len(),
{
    if ws.len() == 0 {
        None
    } else if ws[0].id@ == id {
        Some(0nat)
    } else {
        match position_of(ws.drop_first(), id) {
            Some(p) => Some(p + 1),
            None => None,
        }
    }
}

/// Whether the locale is English.
pub open spec fn is_en(locale: Option<String>) -> bool {
    match locale {
        Some(l) => l@ == "en"@,
        None => false,
    }
}

/// The name a workgroup is shown under: its trimmed name, or, when it has none, a
/// name made from its 1-based position ("グループ(N)", "Group (N)" in English).
pub open spec fn group_label(ws: Seq<Workgroup>, locale: Option<String>, g: Workgroup) -> Seq<char> {
    let own = match g.name {
        Some(n) => trim(n@),
        None => Seq::<char>::empty(),
    };
    if own.len() > 0 {
        own
    } else {
        let n: nat = match position_of(ws, g.id@) {
            Some(p) => p + 1,
            None => 1nat,
        };
        if is_en(locale) {
            "Group ("@ + decimal(n) + ")"@
        } else {
            "グループ("@ + decimal(n) + ")"@
        }
    }
}

fn locale_is_en(locale: &Option<String>) -> (r: bool)
    ensures
        r == is_en(*locale),
{
    match locale {
        Some(l) => str_eq(l.as_str(), "en"),
        None => false,
    }
}

fn position(ws: &Vec<Workgroup>, id: &str) -> (r: Option<usize>)
    ensures
        match r {
            Some(i) => position_of(ws@, id@) == Some(i as nat) && i < ws.len(),
            None => position_of(ws@, id@) is None,
        },
{
    let mut i: usize = 0;
    assert(ws@.skip(0) == ws@);
    while i < ws.len()
        invariant
            i <= ws@.len(),
            position_of(ws@, id@) == match position_of(ws@.skip(i as int), id@) {
                Some(p) => Some((p + i) as nat),
                None => None::<nat>,
            },
        decreases ws@.len() - i,
    {
        let ghost rest = ws@.skip(i as int);
        assert(rest[0] == ws@[i as int]);
        assert(rest.drop_first() == ws@.skip(i + 1));
        if str_eq(ws[i].id.as_str(), id) {
            return Some(i);
        }
        i = i + 1;
    }
    None
}

/// The name a workgroup is shown under (the UI's rule).
pub fn workgroup_display_name(settings: &AppSettings, group: &Workgroup) -> (r: String)
    ensures
        r@ == group_label(settings.workgroups@, settings.locale, *group),
{
    let own: Vec<char> = match &group.name {
        Some(n) => str_trim(n.as_str()),
        None => Vec::new(),
    };
    if own.len() > 0 {
        return string_of(own.as_slice());
    }
    let n: u64 = match position(&settings.workgroups, group.id.as_str()) {
        Some(i) => {
            let n1: usize = i + 1;
            n1 as u64
        },
        None => 1,
    };
    let digits = string_of(decimal_chars(n).as_slice());
    let mut out = if locale_is_en(&settings.locale) { owned("Group (") } else { owned("グループ(") };
    push_str(&mut out, digits.as_str());
    push_str(&mut out, ")");
    out
}

/// The workgroup that work without a chosen workgroup goes to: the first one.
pub fn default_workgroup_id(settings: &AppSettings) -> (r: Option<String>)
    ensures
        match r {
            Some(id) => settings.workgroups@.len() > 0 && id@ == settings.workgroups@[0].id@,
            None => settings.workgroups@.len() == 0,
        },
{
    if settings.workgroups.len() == 0 {
        None
    } else {
        Some(settings.workgroups[0].id.clone())
    }
}

/// The workgroup with id `id`, or the first one when `id` is absent or names none.
pub open spec fn group_by_id(ws: Seq<Workgroup>, id: Option<Seq<char>>) -> Option<int> {
    match id {
        Some(i) => match position_of(ws, i) {
            Some(p) => Some(p as int),
            None => if ws.len() > 0 { Some(0int) } else { None },
        },
        None => if ws.len() > 0 { Some(0int) } else { None },
    }
}

/// The workgroup a worktree with workgroup id `id` belongs to: the one with that id,
/// otherwise the first (default) workgroup; `None` when there is no workgroup.
pub fn resolve_workgroup_by_id(settings: &AppSettings, id: Option<&str>) -> (r: Option<usize>)
    ensures
        match r {
            Some(i) => group_by_id(settings.workgroups@, match id { Some(s) => Some(s@), None => None }) == Some(i as int)
                && i < settings.workgroups@.len(),
            None => group_by_id(settings.workgroups@, match id { Some(s) => Some(s@), None => None }) is None,
        },
{
    match id {
        Some(s) => match position(&settings.workgroups, s) {
            Some(i) => return Some(i),
            None => {},
        },
        None => {},
    }
    if settings.workgroups.len() > 0 {
        Some(0)
    } else {
        None
    }
}

/// ASCII case folding of one character.
pub open spec fn fold_ascii(c: char) -> char {
    if 'A' <= c <= 'Z' {
        ((c as u32) + 32) as char
    } else {
        c
    }
}

/// `eq_ignore_ascii_case`.
pub open spec fn eq_ignore_ascii(a: Seq<char>, b: Seq<char>) -> bool {
    a.len() == b.len() && forall|i: int| 0 <= i < a.len() ==> fold_ascii(#[trigger] a[i]) == fold_ascii(b[i])
}

fn fold_char(c: char) -> (r: char)
    ensures
        r == fold_ascii(c),
{
    if 'A' <= c && c <= 'Z' {
        let u = (c as u32 + 32) as u8;
        u as char
    } else {
        c
    }
}

/// `eq_ignore_ascii_case` on characters.
pub fn chars_eq_ignore_ascii_case(a: &[char], b: &[char]) -> (r: bool)
    ensures
        r == eq_ignore_ascii(a@, b@),
{
    if a.len() != b.len() {
        return false;
    }
    let mut i: usize = 0;
    while i < a.len()
        invariant
            a.len() == b.len(),
            i <= a.len(),
            forall|k: int| 0 <= k < i ==> fold_ascii(#[trigger] a@[k]) == fold_ascii(b@[k]),
        decreases a.len() - i,
    {
        if fold_char(a[i]) != fold_char(b[i]) {
            return false;
        }
        i = i + 1;
    }
    true
}

/// An optional argument, trimmed; blank counts as absent.
pub open spec fn given(o: Option<&str>) -> Option<Seq<char>> {
    match o {
        Some(s) => if trim(s@).len() > 0 { Some(trim(s@)) } else { None },
        None => None,
    }
}

/// "label (id)" for one workgroup.
pub open spec fn group_entry_text(ws: Seq<Workgroup>, locale: Option<String>, g: Workgroup) -> Seq<char> {
    group_label(ws, locale, g) + " ("@ + g.id@ + ")"@
}

/// The workgroups a caller can choose from, for error messages.
pub open spec fn available_groups(ws: Seq<Workgroup>, locale: Option<String>) -> Seq<char> {
    if ws.len() == 0 {
        "(ワークグループが未定義です)"@
    } else {
        join_with(Seq::new(ws.len(), |i: int| group_entry_text(ws, locale, ws[i])), ", "@)
    }
}

/// Whether workgroup `g` is shown under `name` (trimmed label, ASCII case ignored).
pub open spec fn shown_as(ws: Seq<Workgroup>, locale: Option<String>, g: Workgroup, name: Seq<char>) -> bool {
    eq_ignore_ascii(trim(group_label(ws, locale, g)), name)
}

/// The positions among the first `n` workgroups shown under `name`.
pub open spec fn shown_as_upto(ws: Seq<Workgroup>, locale: Option<String>, name: Seq<char>, n: int) -> Seq<int>
    decreases n,
{
    if n <= 0 {
        Seq::<int>::empty()
    } else {
        let rest = shown_as_upto(ws, locale, name, n - 1);
        if shown_as(ws, locale, ws[n - 1], name) {
            rest.push(n - 1)
        } else {
            rest
        }
    }
}

/// What resolving a workgroup from an optional id and an optional name gives: the id's
/// workgroup (an error when no workgroup has it); else the one workgroup shown under the
/// name (an error when none or several are); else nothing.
pub open spec fn workgroup_target(
    ws: Seq<Workgroup>,
    locale: Option<String>,
    id: Option<Seq<char>>,
    name: Option<Seq<char>>,
) -> Result<Option<Seq<char>>, Seq<char>> {
    match id {
        Some(i) => match position_of(ws, i) {
            Some(p) => Ok(Some(ws[p as int].id@)),
            None => Err("workgroup_id '"@ + i + "' に一致するワークグループがありません。利用可能: "@
                + available_groups(ws, locale)),
        },
        None => match name {
            None => Ok(None),
            Some(nm) => {
                let m = shown_as_upto(ws, locale, nm, ws.len() as int);
                if m.len() == 1 {
                    Ok(Some(ws[m[0]].id@))
                } else if m.len() == 0 {
                    Err("workgroup_name '"@ + nm + "' に一致するワークグループがありません。利用可能: "@
                        + available_groups(ws, locale))
                } else {
                    Err("workgroup_name '"@ + nm
                        + "' に一致するワークグループが複数あります。workgroup_id で指定してください。利用可能: "@
                        + available_groups(ws, locale))
                }
            },
        },
    }
}

/// The view of a resolution result.
pub open spec fn target_view(r: Result<Option<String>, String>) -> Result<Option<Seq<char>>, Seq<char>> {
    match r {
        Ok(Some(s)) => Ok(Some(s@)),
        Ok(None) => Ok(None),
        Err(e) => Err(e@),
    }
}

fn trimmed_arg(o: Option<&str>) -> (r: Option<Vec<char>>)
    ensures
        match r {
            Some(v) => given(o) == Some(v@),
            None => given(o) is None,
        },
{
    match o {
        Some(s) => {
            let t = str_trim(s);
            if t.len() > 0 { Some(t) } else { None }
        },
        None => None,
    }
}

/// "label (id), ..." for the error messages.
pub fn available_groups_text(settings: &AppSettings) -> (r: String)
    ensures
        r@ == available_groups(settings.workgroups@, settings.locale),
{
    let ws = &settings.workgroups;
    if ws.len() == 0 {
        return owned("(ワークグループが未定義です)");
    }
    let ghost texts = Seq::new(ws@.len(), |i: int| group_entry_text(ws@, settings.locale, ws@[i]));
    let mut parts: Vec<Vec<char>> = Vec::new();
    let mut i: usize = 0;
    while i < ws.len()
        invariant
            i <= ws@.len(),
            ws == &settings.workgroups,
            texts == Seq::new(ws@.len(), |i: int| group_entry_text(ws@, settings.locale, ws@[i])),
            vviews(parts@) == texts.take(i as int),
        decreases ws@.len() - i,
    {
        let mut t = workgroup_display_name(settings, &ws[i]);
        push_str(&mut t, " (");
        push_str(&mut t, ws[i].id.as_str());
        push_str(&mut t, ")");
        let tv = chars_of(t.as_str());
        let ghost before = parts@;
        parts.push(tv);
        assert(vviews(parts@) =~= vviews(before).push(texts[i as int]));
        assert(texts.take(i + 1) == texts.take(i as int).push(texts[i as int]));
        i = i + 1;
    }
    assert(texts.take(ws@.len() as int) == texts);
    let sep = chars_of(", ");
    let joined = chars_join(&parts, sep.as_slice());
    string_of(joined.as_slice())
}

/// Resolves a workgroup given by `workgroup_id` or (failing that) `workgroup_name`.
/// Absent or blank arguments mean "not given" (`Ok(None)`); an argument that matches no
/// workgroup, or a name that several workgroups are shown under, is an error that lists
/// the workgroups to choose from; it never falls back to some other workgroup.
pub fn resolve_workgroup_target(
    settings: &AppSettings,
    workgroup_id: Option<&str>,
    workgroup_name: Option<&str>,
) -> (r: Result<Option<String>, String>)
    ensures
        target_view(r) == workgroup_target(
            settings.workgroups@,
            settings.locale,
            given(workgroup_id),
            given(workgroup_name),
        ),
{
    let ws = &settings.workgroups;
    if let Some(id) = trimmed_arg(workgroup_id) {
        let id_s = string_of(id.as_slice());
        return match position(ws, id_s.as_str()) {
            Some(p) => Ok(Some(ws[p].id.clone())),
            None => {
                let mut e = owned("workgroup_id '");
                push_str(&mut e, id_s.as_str());
                push_str(&mut e, "' に一致するワークグループがありません。利用可能: ");
                let avail = available_groups_text(settings);
                push_str(&mut e, avail.as_str());
                Err(e)
            },
        };
    }
    let name = match trimmed_arg(workgroup_name) {
        None => return Ok(None),
        Some(n) => n,
    };
    let ghost nm = name@;
    let mut matched: Vec<usize> = Vec::new();
    let mut i: usize = 0;
    while i < ws.len()
        invariant
            i <= ws@.len(),
            ws == &settings.workgroups,
            name@ == nm,
            matched@.map_values(|x: usize| x as int) == shown_as_upto(ws@, settings.locale, nm, i as int),
            forall|k: int| 0 <= k < matched@.len() ==> matched@[k] < ws@.len(),
        decreases ws@.len() - i,
    {
        let label = workgroup_display_name(settings, &ws[i]);
        let lt = str_trim(label.as_str());
        if chars_eq_ignore_ascii_case(lt.as_slice(), name.as_slice()) {
            let ghost before = matched@;
            matched.push(i);
            assert(matched@.map_values(|x: usize| x as int) =~= before.map_values(|x: usize| x as int).push(i as int));
        }
        i = i + 1;
    }
    let name_s = string_of(name.as_slice());
    if matched.len() == 1 {
        assert(matched@.map_values(|x: usize| x as int)[0] == matched@[0] as int);
        Ok(Some(ws[matched[0]].id.clone()))
    } else {
        let mut e = owned("workgroup_name '");
        push_str(&mut e, name_s.as_str());
        if matched.len() == 0 {
            push_str(&mut e, "' に一致するワークグループがありません。利用可能: ");
        } else {
            push_str(&mut e, "' に一致するワークグループが複数あります。workgroup_id で指定してください。利用可能: ");
        }
        let avail = available_groups_text(settings);
        push_str(&mut e, avail.as_str());
        Err(e)
    }
}

/// The position of the workgroup with id `id`.
pub fn find_group(settings: &AppSettings, id: &str) -> (r: Option<usize>)
    ensures
        match r {
            Some(i) => position_of(settings.workgroups@, id@) == Some(i as nat) && i < settings.workgroups@.len(),
            None => position_of(settings.workgroups@, id@) is None,
        },
{
    position(&settings.workgroups, id)
}

} // verus!
