//! Which subscription lets a worktree act on another worktree's terminals and
//! notifications: the caller must itself subscribe to a target matching the destination.

use vstd::prelude::*;
use crate::settings::{AppSettings, WorktreeEntry};
use crate::text::{chars_of, chars_starts_with, str_eq, is_prefix, join_with};
use crate::targets::{matching_targets, targets_matching, sviews};
use crate::workgroups::{group_by_id, resolve_workgroup_by_id};
use crate::worktrees::{first_with_id, find_worktree_by_id};

verus! {

broadcast use vstd::string::group_string_axioms;

/// How a subscription is delivered at the end of a turn.
pub const DELIVERY_TURN_END: &'static str = "turn_end";

/// A stored subscription.
#[derive(Clone, Debug)]
pub struct SubscriptionRow {
    pub id: String,
    pub subscriber_terminal_id: String,
    pub subscriber_worktree_id: Option<String>,
    pub subscriber_agent_session: Option<String>,
    pub target: String,
    pub event_kinds: String,
    pub delivery: String,
    pub spawn_if_closed: i64,
    pub created_at: i64,
    pub expires_at: Option<i64>,
    pub state: String,
    pub orphaned_at: Option<i64>,
}

/// The subscription that allowed an action on another worktree, kept for the audit log.
#[derive(Clone, Debug, PartialEq, Eq)]
pub struct CrossWorktreeGrant {
    pub subscription_id: String,
    pub target: String,
}

/// How specific a target is for destination `dest`: the destination itself (0), a
/// workgroup (1), a repository (2), everything (3).
pub open spec fn specificity(target: Seq<char>, dest: Seq<char>) -> u8 {
    if target == dest {
        0
    } else if is_prefix("workgroup:"@, target) {
        1
    } else if is_prefix("repo:"@, target) {
        2
    } else {
        3
    }
}

/// How specific `target` is for destination `dest_worktree_id` (lower is more specific).
pub fn target_specificity(target: &str, dest_worktree_id: &str) -> (r: u8)
    ensures
        r == specificity(target@, dest_worktree_id@),
{
    if str_eq(target, dest_worktree_id) {
        return 0;
    }
    let tv = chars_of(target);
    if chars_starts_with(tv.as_slice(), chars_of("workgroup:").as_slice()) {
        1
    } else if chars_starts_with(tv.as_slice(), chars_of("repo:").as_slice()) {
        2
    } else {
        3
    }
}

/// Whether a subscription lets `caller` act on the destination with matching targets
/// `targets` at time `now`: the caller is the subscriber, the subscription is active or
/// orphaned and not expired, and its target matches the destination.
pub open spec fn grants(sub: SubscriptionRow, caller: Seq<char>, targets: Seq<Seq<char>>, now: i64) -> bool {
    &&& match sub.subscriber_worktree_id { Some(w) => w@ == caller, None => false }
    &&& (sub.state@ == "active"@ || sub.state@ == "orphaned"@)
    &&& match sub.expires_at { Some(e) => e > now, None => true }
    &&& targets.contains(sub.target@)
}

/// Among the first `n` subscriptions, the position of the first granting one of least
/// specificity.
pub open spec fn best_grant_upto(
    subs: Seq<SubscriptionRow>,
    caller: Seq<char>,
    dest: Seq<char>,
    targets: Seq<Seq<char>>,
    now: i64,
    n: int,
) -> Option<int>
    decreases n,
{
    if n <= 0 {
        None
    } else {
        let b = best_grant_upto(subs, caller, dest, targets, now, n - 1);
        let cur = subs[n - 1];
        if grants(cur, caller, targets, now) && match b {
            None => true,
            Some(j) => specificity(cur.target@, dest) < specificity(subs[j].target@, dest),
        } {
            Some(n - 1)
        } else {
            b
        }
    }
}

/// The grant that `best_grant_upto` over all subscriptions picks.
pub open spec fn best_grant(subs: Seq<SubscriptionRow>, caller: Seq<char>, dest: Seq<char>, targets: Seq<Seq<char>>, now: i64) -> Option<int> {
    best_grant_upto(subs, caller, dest, targets, now, subs.len() as int)
}

fn grants_exec(sub: &SubscriptionRow, caller: &str, targets: &[String], now: i64) -> (r: bool)
    ensures
        r == grants(*sub, caller@, sviews(targets@), now),
{
    let mine = match &sub.subscriber_worktree_id {
        Some(w) => str_eq(w.as_str(), caller),
        None => false,
    };
    if !mine {
        return false;
    }
    if !(str_eq(sub.state.as_str(), "active") || str_eq(sub.state.as_str(), "orphaned")) {
        return false;
    }
    let alive = match sub.expires_at {
        Some(e) => e > now,
        None => true,
    };
    if !alive {
        return false;
    }
    crate::targets::strings_contain(targets, sub.target.as_str())
}

/// Finds the subscription by which the caller worktree may act on the destination
/// worktree: the caller must be the subscriber (a subscription in the other direction
/// grants nothing), the subscription active or orphaned and unexpired at `now`, and its
/// target among `dest_targets` (the targets matching the destination). Event kinds are
/// not looked at. When several grant, the most specific target wins, the first on ties.
pub fn find_cross_worktree_grant(
    subs: &[SubscriptionRow],
    caller_worktree_id: &str,
    dest_worktree_id: &str,
    dest_targets: &[String],
    now: i64,
) -> (r: Option<CrossWorktreeGrant>)
    ensures
        match best_grant(subs@, caller_worktree_id@, dest_worktree_id@, sviews(dest_targets@), now) {
            Some(j) => r matches Some(g) && g.subscription_id@ == subs@[j].id@ && g.target@ == subs@[j].target@,
            None => r is None,
        },
{
    let ghost caller = caller_worktree_id@;
    let ghost dest = dest_worktree_id@;
    let ghost tg = sviews(dest_targets@);
    let mut best: Option<usize> = None;
    let mut best_spec: u8 = 4;
    let mut i: usize = 0;
    while i < subs.len()
        invariant
            i <= subs@.len(),
            caller == caller_worktree_id@,
            dest == dest_worktree_id@,
            tg == sviews(dest_targets@),
            match best_grant_upto(subs@, caller, dest, tg, now, i as int) {
                Some(j) => best == Some(j as usize) && 0 <= j < i && best_spec == specificity(subs@[j].target@, dest),
                None => best is None,
            },
        decreases subs@.len() - i,
    {
        if grants_exec(&subs[i], caller_worktree_id, dest_targets, now) {
            let sp = target_specificity(subs[i].target.as_str(), dest_worktree_id);
            let better = match best {
                None => true,
                Some(_) => sp < best_spec,
            };
            if better {
                best = Some(i);
                best_spec = sp;
            }
        }
        i = i + 1;
    }
    match best {
        Some(j) => Some(CrossWorktreeGrant {
            subscription_id: subs[j].id.clone(),
            target: subs[j].target.clone(),
        }),
        None => None,
    }
}

/// The chosen grant is a granting subscription; some subscription grants exactly when
/// one is chosen; and no granting subscription has a more specific target.
pub proof fn lemma_best_grant(
    subs: Seq<SubscriptionRow>,
    caller: Seq<char>,
    dest: Seq<char>,
    targets: Seq<Seq<char>>,
    now: i64,
    n: int,
)
    requires
        0 <= n <= subs.len(),
    ensures
        match best_grant_upto(subs, caller, dest, targets, now, n) {
            Some(j) => {
                &&& 0 <= j < n
                &&& grants(subs[j], caller, targets, now)
                &&& forall|k: int| 0 <= k < n && grants(#[trigger] subs[k], caller, targets, now)
                    ==> specificity(subs[j].target@, dest) <= specificity(subs[k].target@, dest)
            },
            None => forall|k: int| 0 <= k < n ==> !grants(#[trigger] subs[k], caller, targets, now),
        },
    decreases n,
{
    if n > 0 {
        lemma_best_grant(subs, caller, dest, targets, now, n - 1);
    }
}

/// The workgroup a worktree belongs to: its own, else the first (default) one.
pub fn resolve_workgroup(settings: &AppSettings, wt: &WorktreeEntry) -> (r: Option<usize>)
    ensures
        match r {
            Some(i) => group_by_id(settings.workgroups@, match wt.workgroup_id { Some(s) => Some(s@), None => None }) == Some(i as int)
                && i < settings.workgroups@.len(),
            None => group_by_id(settings.workgroups@, match wt.workgroup_id { Some(s) => Some(s@), None => None }) is None,
        },
{
    match &wt.workgroup_id {
        Some(id) => resolve_workgroup_by_id(settings, Some(id.as_str())),
        None => resolve_workgroup_by_id(settings, None),
    }
}

/// The targets that match a destination worktree: its id and `*`, plus its workgroup (its
/// own or the default one) and its repository when it is registered.
pub open spec fn dest_targets(settings: AppSettings, dest: Seq<char>) -> Seq<Seq<char>> {
    let ws = settings.worktrees@;
    let d = first_with_id(ws, dest);
    let repo = match d { Some(i) => Some(ws[i].repository_name@), None => None };
    let wgid = match d {
        Some(i) => match ws[i].workgroup_id { Some(g) => Some(g@), None => None },
        None => None,
    };
    let group = match group_by_id(settings.workgroups@, wgid) {
        Some(g) => Some(settings.workgroups@[g].id@),
        None => None,
    };
    targets_matching(dest, group, repo)
}

/// Every stored target that a subscription must have to cover the destination worktree.
pub fn cross_worktree_dest_targets(settings: &AppSettings, dest_worktree_id: &str) -> (r: Vec<String>)
    ensures
        sviews(r@) == dest_targets(*settings, dest_worktree_id@),
{
    let dest = find_worktree_by_id(settings, dest_worktree_id);
    let repo: Option<String> = match dest {
        Some(w) => Some(w.repository_name.clone()),
        None => None,
    };
    let wg: Option<&str> = match dest {
        Some(w) => match &w.workgroup_id {
            Some(g) => Some(g.as_str()),
            None => None,
        },
        None => None,
    };
    let group: Option<String> = match resolve_workgroup_by_id(settings, wg) {
        Some(g) => Some(settings.workgroups[g].id.clone()),
        None => None,
    };
    let gref: Option<&str> = match &group {
        Some(g) => Some(g.as_str()),
        None => None,
    };
    let rref: Option<&str> = match &repo {
        Some(r) => Some(r.as_str()),
        None => None,
    };
    matching_targets(dest_worktree_id, gref, rref)
}


/// An integer clamped into the range of `i64` (what saturating arithmetic gives).
pub open spec fn clamp_i64(x: int) -> i64 {
    if x > i64::MAX { i64::MAX } else if x < i64::MIN { i64::MIN } else { x as i64 }
}

/// When a subscription made at `now` (ms) for `expires_in` seconds runs out; never when no
/// time is given. The arithmetic saturates instead of overflowing.
pub fn subscription_expiry(now: i64, expires_in: Option<i64>) -> (r: Option<i64>)
    ensures
        r == match expires_in {
            Some(secs) => Some(clamp_i64(now + clamp_i64(secs * 1000))),
            None => None,
        },
{
    match expires_in {
        None => None,
        Some(secs) => {
            let ms: i64 = if secs > i64::MAX / 1000 {
                i64::MAX
            } else if secs < i64::MIN / 1000 {
                i64::MIN
            } else {
                secs * 1000
            };
            let at: i64 = if ms > 0 && now > i64::MAX - ms {
                i64::MAX
            } else if ms < 0 && now < i64::MIN - ms {
                i64::MIN
            } else {
                now + ms
            };
            Some(at)
        },
    }
}

/// The event kinds a subscription may ask for.
pub open spec fn supported_kinds() -> Seq<Seq<char>> {
    crate::notify_source::all_kind_names()
}

/// The position of the first event kind, from `k` on, that is not supported.
pub open spec fn first_unsupported(kinds: Seq<Seq<char>>, k: int) -> Option<int>
    decreases kinds.len() - k,
{
    if k < 0 || k >= kinds.len() {
        None
    } else if !supported_kinds().contains(kinds[k]) {
        Some(k)
    } else {
        first_unsupported(kinds, k + 1)
    }
}

/// What a subscription request is checked for before anything is stored: a non-blank target,
/// at least one event kind, only supported kinds, a supported delivery (`turn_end` when
/// absent or blank), and a positive lifetime when one is given.
pub open spec fn subscription_request_is(
    r: Result<(String, String), crate::errors::ToolError>,
    target: Seq<char>,
    kinds: Seq<Seq<char>>,
    delivery: Option<Seq<char>>,
    expires_in: Option<i64>,
    deliveries: Seq<Seq<char>>,
) -> bool {
    let t = crate::text::trim(target);
    let d = match delivery {
        Some(x) => if crate::text::trim(x).len() > 0 { crate::text::trim(x) } else { "turn_end"@ },
        None => "turn_end"@,
    };
    if t.len() == 0 {
        r matches Err(e) && e.message@ == "target must not be empty"@
    } else if kinds.len() == 0 {
        r matches Err(e) && e.message@ == "event_kinds must not be empty"@
    } else if first_unsupported(kinds, 0) is Some {
        r matches Err(e) && e.message@ == "イベント種別 '"@ + kinds[first_unsupported(kinds, 0)->0] + "' は未対応です。対応種別: ["@
            + join_with(supported_kinds(), ", "@) + "]"@
    } else if !deliveries.contains(d) {
        r matches Err(e) && e.message@ == "delivery '"@ + d + "' は未対応です。対応値: ["@ + join_with(deliveries, ", "@) + "]"@
    } else if expires_in matches Some(secs) && secs <= 0 {
        r matches Err(e) && e.message@ == "expires_in must be a positive number of seconds (省略すると無期限)"@
    } else {
        r matches Ok((tt, dd)) && tt@ == t && dd@ == d
    }
}

fn kinds_list_text(sep: &str) -> (r: String)
    ensures
        r@ == join_with(supported_kinds(), sep@),
{
    let mut names: Vec<Vec<char>> = Vec::new();
    names.push(chars_of(crate::notify::NotifyKind::General.as_str()));
    names.push(chars_of(crate::notify::NotifyKind::Hook.as_str()));
    names.push(chars_of(crate::notify::NotifyKind::Approval.as_str()));
    names.push(chars_of(crate::notify::NotifyKind::Completed.as_str()));
    names.push(chars_of(crate::notify::NotifyKind::WorktreeMessage.as_str()));
    names.push(chars_of(crate::notify::NotifyKind::WorktreeCreated.as_str()));
    names.push(chars_of(crate::notify::NotifyKind::WorktreeClosed.as_str()));
    assert(crate::text::vviews(names@) =~= supported_kinds());
    let sp = chars_of(sep);
    crate::text::string_of(crate::text::chars_join(&names, sp.as_slice()).as_slice())
}

/// Checks a subscription request (see `subscription_request_is`), given the supported
/// deliveries; answers the trimmed target and the delivery.
pub fn check_subscription_request(
    target: &str,
    kinds: &Vec<String>,
    delivery: Option<&str>,
    expires_in: Option<i64>,
    deliveries: &Vec<String>,
) -> (r: Result<(String, String), crate::errors::ToolError>)
    ensures
        subscription_request_is(r, target@, sviews(kinds@), match delivery { Some(x) => Some(x@), None => None },
            expires_in, sviews(deliveries@)),
{
    let t = crate::text::str_trim(target);
    if t.len() == 0 {
        return Err(crate::errors::invalid_params(String::from_str("target must not be empty")));
    }
    if kinds.len() == 0 {
        return Err(crate::errors::invalid_params(String::from_str("event_kinds must not be empty")));
    }
    let mut i: usize = 0;
    while i < kinds.len()
        invariant
            i <= kinds@.len(),
            first_unsupported(sviews(kinds@), 0) == first_unsupported(sviews(kinds@), i as int),
            t@ == crate::text::trim(target@),
            t@.len() > 0,
            kinds@.len() > 0,
        decreases kinds@.len() - i,
    {
        let k = &kinds[i];
        let ok = match crate::notify::NotifyKind::parse(k.as_str()) {
            Some(_) => true,
            None => false,
        };
        proof {
            reveal_strlit("general");
            reveal_strlit("hook");
            reveal_strlit("approval");
            reveal_strlit("completed");
            reveal_strlit("worktree.message");
            reveal_strlit("worktree.created");
            reveal_strlit("worktree.closed");
            let ks = supported_kinds();
            assert(sviews(kinds@)[i as int] == k@);
            if ok {
                let kk = crate::notify::kind_named(k@)->0;
                assert(ks.contains(k@)) by {
                    if kk == crate::notify::NotifyKind::General { assert(ks[0] == k@); }
                    else if kk == crate::notify::NotifyKind::Hook { assert(ks[1] == k@); }
                    else if kk == crate::notify::NotifyKind::Approval { assert(ks[2] == k@); }
                    else if kk == crate::notify::NotifyKind::Completed { assert(ks[3] == k@); }
                    else if kk == crate::notify::NotifyKind::WorktreeMessage { assert(ks[4] == k@); }
                    else if kk == crate::notify::NotifyKind::WorktreeCreated { assert(ks[5] == k@); }
                    else { assert(ks[6] == k@); }
                }
            } else {
                assert(!ks.contains(k@)) by {
                    if ks.contains(k@) {
                        let a = choose|a: int| 0 <= a < ks.len() && ks[a] == k@;
                        assert(a == 0 || a == 1 || a == 2 || a == 3 || a == 4 || a == 5 || a == 6);
                    }
                }
            }
        }
        if !ok {
            let mut m = String::from_str("イベント種別 '");
            m.append(k.as_str());
            m.append("' は未対応です。対応種別: [");
            m.append(kinds_list_text(", ").as_str());
            m.append("]");
            proof {
                reveal_strlit("イベント種別 '");
                reveal_strlit("' は未対応です。対応種別: [");
                reveal_strlit("]");
                reveal_strlit(", ");
                assert(!supported_kinds().contains(sviews(kinds@)[i as int]));
                assert(first_unsupported(sviews(kinds@), i as int) == Some(i as int));
                assert(sviews(kinds@)[i as int] == k@);
            }
            assert(m@ == "イベント種別 '"@ + k@ + "' は未対応です。対応種別: ["@ + join_with(supported_kinds(), ", "@) + "]"@);
            assert(crate::text::trim(target@).len() > 0);
            assert(sviews(kinds@).len() > 0);
            assert(first_unsupported(sviews(kinds@), 0) is Some);
            return Err(crate::errors::invalid_params(m));
        }
        i = i + 1;
    }
    let d: Vec<char> = match delivery {
        Some(x) => {
            let dt = crate::text::str_trim(x);
            if dt.len() > 0 { dt } else { chars_of("turn_end") }
        },
        None => chars_of("turn_end"),
    };
    let ds = crate::text::string_of(d.as_slice());
    if !crate::targets::strings_contain(deliveries.as_slice(), ds.as_str()) {
        let mut names: Vec<Vec<char>> = Vec::new();
        let mut j: usize = 0;
        while j < deliveries.len()
            invariant
                j <= deliveries@.len(),
                crate::text::vviews(names@) == sviews(deliveries@).take(j as int),
            decreases deliveries@.len() - j,
        {
            let ghost before = names@;
            names.push(chars_of(deliveries[j].as_str()));
            assert(crate::text::vviews(names@) =~= crate::text::vviews(before).push(deliveries@[j as int]@));
            assert(sviews(deliveries@).take(j + 1) =~= sviews(deliveries@).take(j as int).push(deliveries@[j as int]@));
            j = j + 1;
        }
        assert(sviews(deliveries@).take(deliveries@.len() as int) == sviews(deliveries@));
        let sep = chars_of(", ");
        let mut m = String::from_str("delivery '");
        m.append(ds.as_str());
        m.append("' は未対応です。対応値: [");
        m.append(crate::text::string_of(crate::text::chars_join(&names, sep.as_slice()).as_slice()).as_str());
        m.append("]");
        proof {
            reveal_strlit("delivery '");
            reveal_strlit("' は未対応です。対応値: [");
            reveal_strlit("]");
        }
        return Err(crate::errors::invalid_params(m));
    }
    match expires_in {
        Some(secs) => if secs <= 0 {
            return Err(crate::errors::invalid_params(String::from_str(
                "expires_in must be a positive number of seconds (省略すると無期限)",
            )));
        },
        None => {},
    }
    Ok((crate::text::string_of(t.as_slice()), ds))
}


/// Refuses a subscription to the very worktree the subscriber is in (it would close along
/// with the subscriber); wildcard targets, which name no worktree, pass.
pub fn check_not_self_subscription(resolved_worktree_id: Option<&str>, subscriber_worktree_id: &str, target_label: &str)
    -> (r: Result<(), crate::errors::ToolError>)
    ensures
        r is Ok <==> !(resolved_worktree_id matches Some(w) && w@ == subscriber_worktree_id@),
        r matches Err(e) ==> e.message@ == "自分自身が居る"@ + target_label@
            + "のクローズは購読できません（クローズされた時点でこのセッションも消えるため通知先がありません）"@,
{
    match resolved_worktree_id {
        Some(w) => if str_eq(w, subscriber_worktree_id) {
            let mut m = String::from_str("自分自身が居る");
            m.append(target_label);
            m.append("のクローズは購読できません（クローズされた時点でこのセッションも消えるため通知先がありません）");
            proof {
                reveal_strlit("自分自身が居る");
                reveal_strlit("のクローズは購読できません（クローズされた時点でこのセッションも消えるため通知先がありません）");
            }
            Err(crate::errors::invalid_params(m))
        } else {
            Ok(())
        },
        None => Ok(()),
    }
}

} // verus!
