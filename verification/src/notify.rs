//! Notification kinds and the per-key debounce that keeps bursts of hook and
//! approval notifications from flooding the UI.

use vstd::prelude::*;
use crate::text::{chars_of, chars_eq, str_eq};

verus! {

broadcast use vstd::string::group_string_axioms;

/// The kinds a notification can have.
#[derive(Clone, Copy, PartialEq, Eq, Structural, Debug)]
pub enum NotifyKind {
    General,
    Hook,
    Approval,
    Completed,
    WorktreeMessage,
    WorktreeCreated,
    WorktreeClosed,
}

/// The wire name of a kind.
pub open spec fn kind_name(k: NotifyKind) -> Seq<char> {
    match k {
        NotifyKind::General => "general"@,
        NotifyKind::Hook => "hook"@,
        NotifyKind::Approval => "approval"@,
        NotifyKind::Completed => "completed"@,
        NotifyKind::WorktreeMessage => "worktree.message"@,
        NotifyKind::WorktreeCreated => "worktree.created"@,
        NotifyKind::WorktreeClosed => "worktree.closed"@,
    }
}

/// The kind whose wire name is `s`, if any.
pub open spec fn kind_named(s: Seq<char>) -> Option<NotifyKind> {
    if s == "general"@ {
        Some(NotifyKind::General)
    } else if s == "hook"@ {
        Some(NotifyKind::Hook)
    } else if s == "approval"@ {
        Some(NotifyKind::Approval)
    } else if s == "completed"@ {
        Some(NotifyKind::Completed)
    } else if s == "worktree.message"@ {
        Some(NotifyKind::WorktreeMessage)
    } else if s == "worktree.created"@ {
        Some(NotifyKind::WorktreeCreated)
    } else if s == "worktree.closed"@ {
        Some(NotifyKind::WorktreeClosed)
    } else {
        None
    }
}

/// The debounce window (seconds) of a kind; `None` for kinds that are never debounced.
pub open spec fn window_secs(k: NotifyKind) -> Option<u64> {
    match k {
        NotifyKind::Hook => Some(3u64),
        NotifyKind::Approval => Some(1u64),
        _ => None,
    }
}

impl NotifyKind {
    /// The wire name.
    pub fn as_str(&self) -> (r: &'static str)
        ensures
            r@ == kind_name(*self),
    {
        match self {
            NotifyKind::General => "general",
            NotifyKind::Hook => "hook",
            NotifyKind::Approval => "approval",
            NotifyKind::Completed => "completed",
            NotifyKind::WorktreeMessage => "worktree.message",
            NotifyKind::WorktreeCreated => "worktree.created",
            NotifyKind::WorktreeClosed => "worktree.closed",
        }
    }

    /// The kind with wire name `s`; `None` for any other text.
    pub fn parse(s: &str) -> (r: Option<NotifyKind>)
        ensures
            r == kind_named(s@),
    {
        if str_eq(s, "general") {
            Some(NotifyKind::General)
        } else if str_eq(s, "hook") {
            Some(NotifyKind::Hook)
        } else if str_eq(s, "approval") {
            Some(NotifyKind::Approval)
        } else if str_eq(s, "completed") {
            Some(NotifyKind::Completed)
        } else if str_eq(s, "worktree.message") {
            Some(NotifyKind::WorktreeMessage)
        } else if str_eq(s, "worktree.created") {
            Some(NotifyKind::WorktreeCreated)
        } else if str_eq(s, "worktree.closed") {
            Some(NotifyKind::WorktreeClosed)
        } else {
            None
        }
    }

    /// The debounce window in seconds: hook 3, approval 1, none for the others.
    pub fn debounce_secs(&self) -> (r: Option<u64>)
        ensures
            r == window_secs(*self),
    {
        match self {
            NotifyKind::Hook => Some(3),
            NotifyKind::Approval => Some(1),
            _ => None,
        }
    }

    /// Whether an agent may publish this kind: worktree creation and closing are only
    /// announced by the application itself.
    pub fn agent_publishable(&self) -> (r: bool)
        ensures
            r == !(*self == NotifyKind::WorktreeCreated || *self == NotifyKind::WorktreeClosed),
    {
        match self {
            NotifyKind::WorktreeCreated | NotifyKind::WorktreeClosed => false,
            _ => true,
        }
    }
}

/// The debounce window of a kind given by name; unknown names are never debounced.
pub open spec fn window_for_name(kind: Seq<char>) -> Option<u64> {
    match kind_named(kind) {
        Some(k) => window_secs(k),
        None => None,
    }
}

/// The debounce window (seconds) for a kind given by name; `None` when not debounced.
pub fn notify_debounce_secs(kind: &str) -> (r: Option<u64>)
    ensures
        r == window_for_name(kind@),
{
    match NotifyKind::parse(kind) {
        Some(k) => k.debounce_secs(),
        None => None,
    }
}

/// A debounce key: (worktree, kind name, shown in the tray).
pub type DebounceKey = (Seq<char>, Seq<char>, bool);

/// One remembered send.
pub struct DebounceEntry {
    pub worktree: String,
    pub kind: String,
    pub tray: bool,
    pub last_sent_ms: u64,
}

/// When each (worktree, kind, tray) key last got a notification through.
pub struct DebounceMap {
    entries: Vec<DebounceEntry>,
}

/// The key of an entry.
pub open spec fn entry_key(e: DebounceEntry) -> DebounceKey {
    (e.worktree@, e.kind@, e.tray)
}

/// The last send time of `key` among `es` (the first entry with that key).
pub open spec fn lookup_entry(es: Seq<DebounceEntry>, key: DebounceKey) -> Option<u64>
    decreases es.len(),
{
    if es.len() == 0 {
        None
    } else if entry_key(es[0]) == key {
        Some(es[0].last_sent_ms)
    } else {
        lookup_entry(es.drop_first(), key)
    }
}

/// Whether a notification for a key last sent at `last` passes at `now` with a window of
/// `secs` seconds: the first one always passes, later ones once whole `secs` seconds passed.
pub open spec fn window_passes(last: Option<u64>, now: u64, secs: u64) -> bool {
    match last {
        None => true,
        Some(prev) => (if now >= prev { (now - prev) as int } else { 0int }) / 1000 >= secs,
    }
}

/// The decision for `key` (kind window `secs`, `None` meaning never debounced) at `now`.
pub open spec fn debounce_decision(m: Map<DebounceKey, u64>, key: DebounceKey, secs: Option<u64>, now: u64) -> bool {
    match secs {
        None => true,
        Some(w) => window_passes(if m.contains_key(key) { Some(m[key]) } else { None }, now, w),
    }
}

/// The remembered send times after deciding for `key` at `now`.
pub open spec fn debounce_after(m: Map<DebounceKey, u64>, key: DebounceKey, secs: Option<u64>, now: u64) -> Map<DebounceKey, u64> {
    if secs is Some && debounce_decision(m, key, secs, now) {
        m.insert(key, now)
    } else {
        m
    }
}

impl DebounceMap {
    /// The last send time of each key.
    pub closed spec fn view_map(&self) -> Map<DebounceKey, u64> {
        Map::new(|k: DebounceKey| lookup_entry(self.entries@, k) is Some, |k: DebounceKey| lookup_entry(self.entries@, k)->0)
    }

    /// Nothing sent yet.
    pub fn new() -> (r: Self)
        ensures
            r.view_map() == Map::<DebounceKey, u64>::empty(),
    {
        let r = DebounceMap { entries: Vec::new() };
        assert(r.view_map() =~= Map::<DebounceKey, u64>::empty());
        r
    }

    fn find(&self, worktree: &[char], kind: &[char], tray: bool) -> (r: Option<usize>)
        ensures
            match r {
                Some(i) => i < self.entries@.len() && entry_key(self.entries@[i as int]) == (worktree@, kind@, tray)
                    && (forall|j: int| 0 <= j < i ==> entry_key(#[trigger] self.entries@[j]) != (worktree@, kind@, tray))
                    && lookup_entry(self.entries@, (worktree@, kind@, tray)) == Some(self.entries@[i as int].last_sent_ms),
                None => lookup_entry(self.entries@, (worktree@, kind@, tray)) is None,
            },
    {
        let ghost key = (worktree@, kind@, tray);
        let mut i: usize = 0;
        assert(self.entries@.skip(0) == self.entries@);
        while i < self.entries.len()
            invariant
                i <= self.entries@.len(),
                key == (worktree@, kind@, tray),
                lookup_entry(self.entries@, key) == lookup_entry(self.entries@.skip(i as int), key),
                forall|j: int| 0 <= j < i ==> entry_key(#[trigger] self.entries@[j]) != key,
            decreases self.entries@.len() - i,
        {
            let e = &self.entries[i];
            let ghost rest = self.entries@.skip(i as int);
            assert(rest[0] == self.entries@[i as int]);
            assert(rest.drop_first() == self.entries@.skip(i + 1));
            let wv = chars_of(e.worktree.as_str());
            let kv = chars_of(e.kind.as_str());
            if e.tray == tray && chars_eq(wv.as_slice(), worktree) && chars_eq(kv.as_slice(), kind) {
                assert(entry_key(rest[0]) == key);
                assert(lookup_entry(rest, key) == Some(rest[0].last_sent_ms));
                return Some(i);
            }
            assert(entry_key(self.entries@[i as int]) != key);
            assert(lookup_entry(rest, key) == lookup_entry(rest.drop_first(), key));
            i = i + 1;
        }
        None
    }

    /// Decides whether a notification for (`worktree`, `kind`, `tray`) goes out at `now_ms`
    /// and, when it does and the kind is debounced, remembers `now_ms` for that key.
    /// Kinds without a window always pass and are not remembered.
    pub fn should_send_notify_at(&mut self, worktree: &str, kind: &str, tray: bool, now_ms: u64) -> (r: bool)
        ensures
            r == debounce_decision(old(self).view_map(), (worktree@, kind@, tray), window_for_name(kind@), now_ms),
            final(self).view_map() == debounce_after(old(self).view_map(), (worktree@, kind@, tray), window_for_name(kind@), now_ms),
    {
        match notify_debounce_secs(kind) {
            None => true,
            Some(secs) => self.pass_window(worktree, kind, tray, secs, now_ms),
        }
    }

    /// Decides whether (`worktree`, `kind`, `tray`) passes a window of `secs` seconds at
    /// `now_ms` and, when it does, remembers `now_ms` for that key.
    pub fn pass_window(&mut self, worktree: &str, kind: &str, tray: bool, secs: u64, now_ms: u64) -> (r: bool)
        ensures
            r == debounce_decision(old(self).view_map(), (worktree@, kind@, tray), Some(secs), now_ms),
            final(self).view_map() == debounce_after(old(self).view_map(), (worktree@, kind@, tray), Some(secs), now_ms),
    {
        let wv = chars_of(worktree);
        let kv = chars_of(kind);
        let ghost key = (worktree@, kind@, tray);
        proof {
            self.lemma_view_lookup(key);
        }
        match self.find(wv.as_slice(), kv.as_slice(), tray) {
            Some(i) => {
                let prev = self.entries[i].last_sent_ms;
                let passed = now_ms.saturating_sub(prev) / 1000;
                if passed >= secs {
                    let ghost old_entries = self.entries@;
                    let e = DebounceEntry {
                        worktree: worktree.to_string(),
                        kind: kind.to_string(),
                        tray,
                        last_sent_ms: now_ms,
                    };
                    self.entries.set(i, e);
                    proof {
                        self.lemma_set_entry(old_entries, i as int, key, now_ms);
                    }
                    true
                } else {
                    false
                }
            },
            None => {
                let ghost old_entries = self.entries@;
                let e = DebounceEntry {
                    worktree: worktree.to_string(),
                    kind: kind.to_string(),
                    tray,
                    last_sent_ms: now_ms,
                };
                self.entries.push(e);
                proof {
                    self.lemma_push_entry(old_entries, key, now_ms);
                }
                true
            },
        }
    }

    proof fn lemma_view_lookup(&self, key: DebounceKey)
        ensures
            self.view_map().contains_key(key) == (lookup_entry(self.entries@, key) is Some),
            self.view_map().contains_key(key) ==> self.view_map()[key] == lookup_entry(self.entries@, key)->0,
    {
    }

    proof fn lemma_set_entry(&self, old_entries: Seq<DebounceEntry>, i: int, key: DebounceKey, now: u64)
        requires
            0 <= i < old_entries.len(),
            entry_key(old_entries[i]) == key,
            forall|j: int| 0 <= j < i ==> entry_key(#[trigger] old_entries[j]) != key,
            self.entries@ == old_entries.update(i, self.entries@[i]),
            entry_key(self.entries@[i]) == key,
            self.entries@[i].last_sent_ms == now,
        ensures
            self.view_map() == Map::new(
                |k: DebounceKey| lookup_entry(old_entries, k) is Some,
                |k: DebounceKey| lookup_entry(old_entries, k)->0,
            ).insert(key, now),
    {
        let new_es = self.entries@;
        assert forall|k: DebounceKey| #![auto] lookup_entry(new_es, k) == if k == key { Some(now) } else { lookup_entry(old_entries, k) } by {
            lemma_lookup_update(old_entries, i, self.entries@[i], k);
        }
        assert(self.view_map() =~= Map::new(
            |k: DebounceKey| lookup_entry(old_entries, k) is Some,
            |k: DebounceKey| lookup_entry(old_entries, k)->0,
        ).insert(key, now));
    }

    proof fn lemma_push_entry(&self, old_entries: Seq<DebounceEntry>, key: DebounceKey, now: u64)
        requires
            lookup_entry(old_entries, key) is None,
            self.entries@ == old_entries.push(self.entries@.last()),
            entry_key(self.entries@.last()) == key,
            self.entries@.last().last_sent_ms == now,
        ensures
            self.view_map() == Map::new(
                |k: DebounceKey| lookup_entry(old_entries, k) is Some,
                |k: DebounceKey| lookup_entry(old_entries, k)->0,
            ).insert(key, now),
    {
        let new_es = self.entries@;
        assert forall|k: DebounceKey| #![auto] lookup_entry(new_es, k) == if k == key { Some(now) } else { lookup_entry(old_entries, k) } by {
            lemma_lookup_push(old_entries, self.entries@.last(), k);
        }
        assert(self.view_map() =~= Map::new(
            |k: DebounceKey| lookup_entry(old_entries, k) is Some,
            |k: DebounceKey| lookup_entry(old_entries, k)->0,
        ).insert(key, now));
    }
}

proof fn lemma_lookup_update(es: Seq<DebounceEntry>, i: int, e: DebounceEntry, k: DebounceKey)
    requires
        0 <= i < es.len(),
        entry_key(es[i]) == entry_key(e),
        forall|j: int| 0 <= j < i ==> entry_key(#[trigger] es[j]) != entry_key(e),
    ensures
        lookup_entry(es.update(i, e), k) == if k == entry_key(e) { Some(e.last_sent_ms) } else { lookup_entry(es, k) },
    decreases es.len(),
{
    if i == 0 {
        assert(es.update(0, e).drop_first() == es.drop_first());
    } else {
        assert(es.update(i, e).drop_first() == es.drop_first().update(i - 1, e));
        assert forall|j: int| 0 <= j < i - 1 implies entry_key(#[trigger] es.drop_first()[j]) != entry_key(e) by {
            assert(es.drop_first()[j] == es[j + 1]);
        }
        lemma_lookup_update(es.drop_first(), i - 1, e, k);
        assert(es.update(i, e)[0] == es[0]);
    }
}

proof fn lemma_lookup_push(es: Seq<DebounceEntry>, e: DebounceEntry, k: DebounceKey)
    requires
        lookup_entry(es, entry_key(e)) is None,
    ensures
        lookup_entry(es.push(e), k) == if k == entry_key(e) { Some(e.last_sent_ms) } else { lookup_entry(es, k) },
    decreases es.len(),
{
    if es.len() > 0 {
        assert(es.push(e).drop_first() == es.drop_first().push(e));
        lemma_lookup_push(es.drop_first(), e, k);
    } else {
        assert(es.push(e).drop_first() == es);
    }
}

/// A decision for one key neither reads nor changes the window of any other key: a
/// notification not shown in the tray does not use up the window of one that is, and
/// each worktree and kind has its own window.
pub proof fn lemma_debounce_keys_independent(
    m: Map<DebounceKey, u64>,
    k1: DebounceKey,
    secs1: Option<u64>,
    now1: u64,
    k2: DebounceKey,
    secs2: Option<u64>,
    now2: u64,
)
    requires
        k1 != k2,
    ensures
        debounce_decision(debounce_after(m, k1, secs1, now1), k2, secs2, now2) == debounce_decision(m, k2, secs2, now2),
        debounce_after(m, k1, secs1, now1).contains_key(k2) == m.contains_key(k2),
        m.contains_key(k2) ==> debounce_after(m, k1, secs1, now1)[k2] == m[k2],
{
}

/// Once a notification of a debounced kind went out at `now`, another one for the same
/// key is held back until whole `w` seconds have passed, and passes from then on.
pub proof fn lemma_debounce_window(m: Map<DebounceKey, u64>, k: DebounceKey, w: u64, now: u64, later: u64)
    requires
        w >= 1,
        debounce_decision(m, k, Some(w), now),
        now <= later,
    ensures
        debounce_decision(debounce_after(m, k, Some(w), now), k, Some(w), later) == (later - now >= w * 1000),
{
    let d = (later - now) as int;
    assert(d / 1000 >= w <==> d >= w * 1000) by (nonlinear_arith)
        requires
            d >= 0,
            w >= 1,
    {
        if d >= w * 1000 {
            assert(d / 1000 >= w);
        }
        if d / 1000 >= w {
            assert(d >= (d / 1000) * 1000);
        }
    }
}

/// The first notification for a key always goes out.
pub proof fn lemma_debounce_first_passes(m: Map<DebounceKey, u64>, k: DebounceKey, secs: Option<u64>, now: u64)
    requires
        !m.contains_key(k),
    ensures
        debounce_decision(m, k, secs, now),
{
}

/// Kinds without a window always go out and leave the remembered times untouched.
pub proof fn lemma_undebounced_always_pass(m: Map<DebounceKey, u64>, k: DebounceKey, now: u64)
    ensures
        debounce_decision(m, k, None, now),
        debounce_after(m, k, None, now) == m,
{
}

} // verus!
