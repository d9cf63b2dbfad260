//! The inbox tools: what an unsubscribe asks to remove, which message ids an ack names, the
//! delivery stamp a poll puts on the messages it hands out, where a message came from, and the
//! texts these tools answer with.

use vstd::prelude::*;
use crate::errors::{ToolError, ToolErrorKind, invalid_params};
use crate::settings::AppSettings;
use crate::targets::{
    describe_target, normalize_target, normalized_target, resolve_subscription_target, subscription_resolution, target_description,
};
use crate::text::{string_of, str_eq, str_trim, decimal, decimal_chars, owned, push_str, trim, opt_chars};
use crate::workgroups::given;
use crate::worktrees::{find_worktree_by_id, first_with_id};

verus! {

broadcast use vstd::string::group_string_axioms;

/// What an unsubscribe asks to remove: the subscription with that id, else the caller's
/// subscription to that target (kept in its stored form).
#[derive(Debug)]
pub struct UnsubscribeRequest {
    pub subscription_id: Option<String>,
    pub target: Option<String>,
}

/// The stored form of an unsubscribe target: the target as it resolves, or, when it no longer
/// resolves (its worktree closed since), the target normalized.
pub open spec fn unsubscribe_target(settings: AppSettings, t: Seq<char>) -> Seq<char> {
    match subscription_resolution(settings, t) {
        Ok((stored, _, _)) => stored,
        Err(_) => normalized_target(t),
    }
}

/// Settles what an unsubscribe asks to remove; one of the subscription id and the target
/// must be given (not blank).
pub fn plan_unsubscribe(settings: &AppSettings, subscription_id: Option<&str>, target: Option<&str>) -> (r: Result<UnsubscribeRequest, ToolError>)
    ensures
        match (given(subscription_id), given(target)) {
            (None, None) => r matches Err(e) && e.kind == ToolErrorKind::InvalidParams
                && e.message@ == "subscription_id または target を指定してください"@,
            (sid, t) => r matches Ok(q) && opt_chars(q.subscription_id) == sid
                && opt_chars(q.target) == match t {
                    Some(x) => Some(unsubscribe_target(*settings, x)),
                    None => None,
                },
        },
{
    let sid = match subscription_id {
        Some(s) => {
            let t = str_trim(s);
            if t.len() > 0 { Some(string_of(t.as_slice())) } else { None }
        },
        None => None,
    };
    let tgt = match target {
        Some(s) => {
            let t = str_trim(s);
            if t.len() > 0 { Some(string_of(t.as_slice())) } else { None }
        },
        None => None,
    };
    if sid.is_none() && tgt.is_none() {
        return Err(invalid_params(owned("subscription_id または target を指定してください")));
    }
    let stored = match tgt {
        Some(t) => Some(match resolve_subscription_target(settings, t.as_str()) {
            Ok(r) => r.stored,
            Err(_) => normalize_target(t.as_str()),
        }),
        None => None,
    };
    Ok(UnsubscribeRequest { subscription_id: sid, target: stored })
}

/// What an unsubscribe answers after removing `deleted` subscriptions.
pub open spec fn unsubscribe_reply(deleted: u64) -> Seq<char> {
    if deleted > 0 {
        "購読を解除しました（"@ + decimal(deleted as nat) + " 件）。"@
    } else {
        "該当する購読はありませんでした（既に解除済み、または別のターミナルの購読です）。oretachi_list_subscriptions で確認してください。"@
    }
}

/// What an unsubscribe answers after removing `deleted` subscriptions.
pub fn unsubscribe_message(deleted: u64) -> (r: String)
    ensures
        r@ == unsubscribe_reply(deleted),
{
    if deleted > 0 {
        let mut m = owned("購読を解除しました（");
        push_str(&mut m, string_of(decimal_chars(deleted).as_slice()).as_str());
        push_str(&mut m, " 件）。");
        m
    } else {
        owned("該当する購読はありませんでした（既に解除済み、または別のターミナルの購読です）。oretachi_list_subscriptions で確認してください。")
    }
}

/// The message ids an ack names: each trimmed, the blank ones left out.
pub open spec fn named_ids(ids: Seq<String>) -> Seq<Seq<char>>
    decreases ids.len(),
{
    if ids.len() == 0 {
        Seq::empty()
    } else {
        let p = named_ids(ids.drop_last());
        let t = trim(ids.last()@);
        if t.len() > 0 { p.push(t) } else { p }
    }
}

/// The views of a list of texts.
pub open spec fn texts(v: Seq<String>) -> Seq<Seq<char>> {
    v.map_values(|s: String| s@)
}

/// The message ids an ack names; an ack naming none is refused.
pub fn ack_ids(ids: &Vec<String>) -> (r: Result<Vec<String>, ToolError>)
    ensures
        match r {
            Ok(v) => named_ids(ids@).len() > 0 && texts(v@) == named_ids(ids@),
            Err(e) => named_ids(ids@).len() == 0 && e.kind == ToolErrorKind::InvalidParams
                && e.message@ == "ids must not be empty"@,
        },
{
    let mut out: Vec<String> = Vec::new();
    let mut i: usize = 0;
    assert(ids@.take(0) =~= Seq::<String>::empty());
    while i < ids.len()
        invariant
            i <= ids@.len(),
            texts(out@) == named_ids(ids@.take(i as int)),
        decreases ids@.len() - i,
    {
        let ghost t = ids@.take(i + 1);
        assert(t.drop_last() =~= ids@.take(i as int));
        assert(t.last() == ids@[i as int]);
        let v = str_trim(ids[i].as_str());
        if v.len() > 0 {
            let ghost before = out@;
            out.push(string_of(v.as_slice()));
            assert(texts(out@) =~= texts(before).push(out@.last()@));
        }
        i = i + 1;
    }
    assert(ids@.take(ids@.len() as int) =~= ids@);
    if out.len() == 0 {
        return Err(invalid_params(owned("ids must not be empty")));
    }
    Ok(out)
}

/// What an ack answers when `acked` of the `requested` messages were marked read.
pub open spec fn ack_reply(acked: u64, requested: u64) -> Seq<char> {
    decimal(acked as nat) + " 件を確認済みにしました（要求 "@ + decimal(requested as nat)
        + " 件。差分は既に ack 済みか、別のターミナル宛のメッセージです）。"@
}

/// What an ack answers when `acked` of the `requested` messages were marked read.
pub fn ack_message(acked: u64, requested: u64) -> (r: String)
    ensures
        r@ == ack_reply(acked, requested),
{
    let mut m = string_of(decimal_chars(acked).as_slice());
    push_str(&mut m, " 件を確認済みにしました（要求 ");
    push_str(&mut m, string_of(decimal_chars(requested).as_slice()).as_str());
    push_str(&mut m, " 件。差分は既に ack 済みか、別のターミナル宛のメッセージです）。");
    m
}

/// A message in a terminal's inbox, as far as a poll reads it.
#[derive(Debug)]
pub struct InboxItem {
    pub id: String,
    pub source_worktree_id: String,
    /// When a poll first handed it out (epoch ms).
    pub delivered_at: Option<i64>,
}

/// The ids of the messages no poll has handed out yet, in order.
pub open spec fn undelivered(items: Seq<InboxItem>) -> Seq<Seq<char>>
    decreases items.len(),
{
    if items.len() == 0 {
        Seq::empty()
    } else {
        let p = undelivered(items.drop_last());
        if items.last().delivered_at is None { p.push(items.last().id@) } else { p }
    }
}

/// The ids of the messages no poll has handed out yet, in order.
pub fn undelivered_ids(items: &Vec<InboxItem>) -> (r: Vec<String>)
    ensures
        texts(r@) == undelivered(items@),
{
    let mut out: Vec<String> = Vec::new();
    let mut i: usize = 0;
    assert(items@.take(0) =~= Seq::<InboxItem>::empty());
    while i < items.len()
        invariant
            i <= items@.len(),
            texts(out@) == undelivered(items@.take(i as int)),
        decreases items@.len() - i,
    {
        let ghost t = items@.take(i + 1);
        assert(t.drop_last() =~= items@.take(i as int));
        assert(t.last() == items@[i as int]);
        if items[i].delivered_at.is_none() {
            let ghost before = out@;
            out.push(items[i].id.clone());
            assert(texts(out@) =~= texts(before).push(out@.last()@));
        }
        i = i + 1;
    }
    assert(items@.take(items@.len() as int) =~= items@);
    out
}

/// Marks the messages no poll had handed out as handed out at `now`; the others keep their
/// first delivery time.
pub fn stamp_delivered(items: &mut Vec<InboxItem>, now: i64)
    ensures
        final(items)@.len() == old(items)@.len(),
        forall|i: int| 0 <= i < final(items)@.len() ==> {
            &&& (#[trigger] final(items)@[i]).id@ == old(items)@[i].id@
            &&& final(items)@[i].source_worktree_id@ == old(items)@[i].source_worktree_id@
            &&& final(items)@[i].delivered_at == match old(items)@[i].delivered_at {
                Some(t) => Some(t),
                None => Some(now),
            }
        },
{
    let mut i: usize = 0;
    while i < items.len()
        invariant
            i <= items@.len(),
            items@.len() == old(items)@.len(),
            forall|j: int| 0 <= j < items@.len() ==> {
                &&& (#[trigger] items@[j]).id@ == old(items)@[j].id@
                &&& items@[j].source_worktree_id@ == old(items)@[j].source_worktree_id@
                &&& items@[j].delivered_at == if j < i {
                    match old(items)@[j].delivered_at {
                        Some(t) => Some(t),
                        None => Some(now),
                    }
                } else {
                    old(items)@[j].delivered_at
                }
            },
        decreases items@.len() - i,
    {
        if items[i].delivered_at.is_none() {
            let item = InboxItem {
                id: items[i].id.clone(),
                source_worktree_id: items[i].source_worktree_id.clone(),
                delivered_at: Some(now),
            };
            items.set(i, item);
        }
        i = i + 1;
    }
}

/// Where a message came from: the name and path of the worktree with its source id, both
/// `None` when no registered worktree has that id (it was closed since).
pub fn message_source(settings: &AppSettings, source_worktree_id: &str) -> (r: (Option<String>, Option<String>))
    ensures
        match first_with_id(settings.worktrees@, source_worktree_id@) {
            Some(i) => opt_chars(r.0) == Some(settings.worktrees@[i].name@)
                && opt_chars(r.1) == Some(settings.worktrees@[i].path@),
            None => r.0 is None && r.1 is None,
        },
{
    match find_worktree_by_id(settings, source_worktree_id) {
        Some(w) => (Some(w.name.clone()), Some(w.path.clone())),
        None => (None, None),
    }
}

/// The hint a poll answers with: that there is nothing, or how to acknowledge what came.
pub open spec fn poll_hint_text(has_messages: bool) -> Seq<char> {
    if has_messages {
        "内容を確認したら oretachi_ack_message に id を渡して ack してください。ack しない限りこの一覧に残り続けます（セッション開始時の自動提示は一度だけなので、以後はこのツールで取り直します）。"@
    } else {
        "未確認メッセージはありません。"@
    }
}

/// The hint a poll answers with.
pub fn poll_hint(has_messages: bool) -> (r: String)
    ensures
        r@ == poll_hint_text(has_messages),
{
    if has_messages {
        owned("内容を確認したら oretachi_ack_message に id を渡して ack してください。ack しない限りこの一覧に残り続けます（セッション開始時の自動提示は一度だけなので、以後はこのツールで取り直します）。")
    } else {
        owned("未確認メッセージはありません。")
    }
}

/// How a subscription's target is shown: its kind and label (see [`describe_target`]), and the
/// name of the worktree when the target is one worktree.
pub fn subscription_target_view(settings: &AppSettings, target: &str) -> (r: (String, Option<String>, Option<String>))
    ensures
        (r.0@, opt_chars(r.1)) == target_description(*settings, target@),
        opt_chars(r.2) == if r.0@ == "worktree"@ { opt_chars(r.1) } else { None },
{
    let (kind, label) = describe_target(settings, target);
    let name = if str_eq(kind.as_str(), "worktree") {
        match &label {
            Some(l) => Some(l.clone()),
            None => None,
        }
    } else {
        None
    };
    (kind, label, name)
}

} // verus!
