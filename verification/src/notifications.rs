//! The unread notifications as the window last reported them, the worktrees moved to a
//! window of their own, and the listing of the worktrees that have notifications waiting.

use vstd::prelude::*;
use crate::settings::{AppSettings, WorktreeEntry};
use crate::text::{chars_of, str_eq, opt_chars, text_less, chars_less, lemma_text_less_transitive, lemma_text_less_total};
use crate::worktrees::{find_worktree_by_id, first_with_id};

verus! {

broadcast use vstd::string::group_string_axioms;

/// One worktree's unread notifications as the window last reported them.
#[derive(Debug)]
pub struct NotificationSnapshot {
    pub count: u32,
    /// "approval", "completed" or "general".
    pub kind: String,
    /// When the first of them arrived (epoch ms).
    pub first_notified_at: i64,
}

/// What a snapshot says: (count, kind, first arrival).
pub open spec fn notice_view(n: NotificationSnapshot) -> (u32, Seq<char>, i64) {
    (n.count, n.kind@, n.first_notified_at)
}

fn copy_snapshot(n: &NotificationSnapshot) -> (r: NotificationSnapshot)
    ensures
        notice_view(r) == notice_view(*n),
{
    NotificationSnapshot { count: n.count, kind: n.kind.clone(), first_notified_at: n.first_notified_at }
}

/// A worktree id with its snapshot.
#[derive(Debug)]
pub struct NotificationEntry {
    pub worktree_id: String,
    pub snapshot: NotificationSnapshot,
}

/// The snapshots by worktree id; a later entry for an id replaces an earlier one.
pub open spec fn entries_map(es: Seq<NotificationEntry>) -> Map<Seq<char>, (u32, Seq<char>, i64)>
    decreases es.len(),
{
    if es.len() == 0 {
        Map::empty()
    } else {
        entries_map(es.drop_last()).insert(es.last().worktree_id@, notice_view(es.last().snapshot))
    }
}

/// No worktree id occurs twice.
pub open spec fn distinct_ids(es: Seq<NotificationEntry>) -> bool {
    forall|i: int, j: int| #![trigger es[i], es[j]] 0 <= i < j < es.len() ==> es[i].worktree_id@ != es[j].worktree_id@
}

proof fn lemma_entries_map_key(es: Seq<NotificationEntry>, k: Seq<char>)
    ensures
        entries_map(es).contains_key(k) <==> exists|i: int| 0 <= i < es.len() && #[trigger] es[i].worktree_id@ == k,
    decreases es.len(),
{
    if es.len() > 0 {
        let p = es.drop_last();
        lemma_entries_map_key(p, k);
        if exists|i: int| 0 <= i < p.len() && #[trigger] p[i].worktree_id@ == k {
            let i = choose|i: int| 0 <= i < p.len() && #[trigger] p[i].worktree_id@ == k;
            assert(es[i] == p[i]);
        }
        if exists|i: int| 0 <= i < es.len() && #[trigger] es[i].worktree_id@ == k {
            let i = choose|i: int| 0 <= i < es.len() && #[trigger] es[i].worktree_id@ == k;
            if i < es.len() - 1 {
                assert(p[i] == es[i]);
            }
        }
    }
}

proof fn lemma_distinct_drop_last(es: Seq<NotificationEntry>)
    requires
        distinct_ids(es),
        es.len() > 0,
    ensures
        distinct_ids(es.drop_last()),
        !entries_map(es.drop_last()).contains_key(es.last().worktree_id@),
{
    let p = es.drop_last();
    assert forall|i: int, j: int| #![trigger p[i], p[j]] 0 <= i < j < p.len() implies p[i].worktree_id@ != p[j].worktree_id@ by {
        assert(p[i] == es[i] && p[j] == es[j]);
    }
    lemma_entries_map_key(p, es.last().worktree_id@);
    if entries_map(p).contains_key(es.last().worktree_id@) {
        let i = choose|i: int| 0 <= i < p.len() && #[trigger] p[i].worktree_id@ == es.last().worktree_id@;
        assert(p[i] == es[i]);
        assert(es[i].worktree_id@ != es[es.len() - 1].worktree_id@);
    }
}

proof fn lemma_entries_map_at(es: Seq<NotificationEntry>, i: int)
    requires
        distinct_ids(es),
        0 <= i < es.len(),
    ensures
        entries_map(es).contains_key(es[i].worktree_id@),
        entries_map(es)[es[i].worktree_id@] == notice_view(es[i].snapshot),
    decreases es.len(),
{
    let p = es.drop_last();
    if i < es.len() - 1 {
        lemma_distinct_drop_last(es);
        assert(p[i] == es[i]);
        lemma_entries_map_at(p, i);
        assert(es[i].worktree_id@ != es[es.len() - 1].worktree_id@);
    }
}

proof fn lemma_entries_map_remove(es: Seq<NotificationEntry>, i: int)
    requires
        distinct_ids(es),
        0 <= i < es.len(),
    ensures
        distinct_ids(es.remove(i)),
        entries_map(es.remove(i)) == entries_map(es).remove(es[i].worktree_id@),
    decreases es.len(),
{
    let k = es[i].worktree_id@;
    let p = es.drop_last();
    let q = es.remove(i);
    assert forall|a: int, b: int| #![trigger q[a], q[b]] 0 <= a < b < q.len() implies q[a].worktree_id@ != q[b].worktree_id@ by {
        let a2 = if a < i { a } else { a + 1 };
        let b2 = if b < i { b } else { b + 1 };
        assert(q[a] == es[a2] && q[b] == es[b2]);
    }
    lemma_distinct_drop_last(es);
    if i == es.len() - 1 {
        assert(q =~= p);
        assert(entries_map(es).remove(k) =~= entries_map(p));
    } else {
        lemma_entries_map_remove(p, i);
        assert(q.drop_last() =~= p.remove(i));
        assert(q.last() == es.last());
        assert(es.last().worktree_id@ != k) by {
            assert(es[i].worktree_id@ != es[es.len() - 1].worktree_id@);
        }
        assert(entries_map(q) =~= entries_map(es).remove(k));
    }
}

proof fn lemma_entries_map_push(es: Seq<NotificationEntry>, e: NotificationEntry)
    requires
        distinct_ids(es),
        !entries_map(es).contains_key(e.worktree_id@),
    ensures
        distinct_ids(es.push(e)),
        entries_map(es.push(e)) == entries_map(es).insert(e.worktree_id@, notice_view(e.snapshot)),
{
    let q = es.push(e);
    lemma_entries_map_key(es, e.worktree_id@);
    assert forall|a: int, b: int| #![trigger q[a], q[b]] 0 <= a < b < q.len() implies q[a].worktree_id@ != q[b].worktree_id@ by {
        assert(q[a] == es[a]);
        if b < es.len() {
            assert(q[b] == es[b]);
        }
    }
    assert(q.drop_last() =~= es);
}

proof fn lemma_entries_map_len(es: Seq<NotificationEntry>)
    requires
        distinct_ids(es),
    ensures
        entries_map(es).dom().finite(),
        entries_map(es).len() == es.len(),
    decreases es.len(),
{
    if es.len() == 0 {
        assert(entries_map(es).dom() =~= Set::<Seq<char>>::empty());
    } else {
        lemma_distinct_drop_last(es);
        lemma_entries_map_len(es.drop_last());
    }
}

/// The mirror of the window's unread notifications, by worktree id.
pub struct NotificationRegistry {
    entries: Vec<NotificationEntry>,
}

impl View for NotificationRegistry {
    type V = Map<Seq<char>, (u32, Seq<char>, i64)>;

    closed spec fn view(&self) -> Self::V {
        entries_map(self.entries@)
    }
}

impl NotificationRegistry {
    #[verifier::type_invariant]
    closed spec fn ids_distinct(self) -> bool {
        distinct_ids(self.entries@)
    }

    /// Nothing reported yet.
    pub fn new() -> (r: Self)
        ensures
            r@ == Map::<Seq<char>, (u32, Seq<char>, i64)>::empty(),
    {
        NotificationRegistry { entries: Vec::new() }
    }

    fn position(&self, worktree_id: &str) -> (r: Option<usize>)
        ensures
            match r {
                Some(i) => i < self.entries@.len() && self.entries@[i as int].worktree_id@ == worktree_id@,
                None => !self@.contains_key(worktree_id@),
            },
    {
        let mut i: usize = 0;
        while i < self.entries.len()
            invariant
                i <= self.entries@.len(),
                forall|j: int| 0 <= j < i ==> (#[trigger] self.entries@[j]).worktree_id@ != worktree_id@,
            decreases self.entries@.len() - i,
        {
            if str_eq(self.entries[i].worktree_id.as_str(), worktree_id) {
                return Some(i);
            }
            i = i + 1;
        }
        proof { lemma_entries_map_key(self.entries@, worktree_id@); }
        None
    }

    /// How many worktrees have notifications waiting.
    pub fn len(&self) -> (r: usize)
        ensures
            r == self@.len(),
    {
        proof {
            use_type_invariant(self);
            lemma_entries_map_len(self.entries@);
        }
        self.entries.len()
    }

    /// The snapshot of a worktree, if it has notifications waiting.
    pub fn get(&self, worktree_id: &str) -> (r: Option<&NotificationSnapshot>)
        ensures
            match r {
                Some(n) => self@.contains_key(worktree_id@) && self@[worktree_id@] == notice_view(*n),
                None => !self@.contains_key(worktree_id@),
            },
    {
        proof { use_type_invariant(self); }
        match self.position(worktree_id) {
            Some(i) => {
                proof { lemma_entries_map_at(self.entries@, i as int); }
                Some(&self.entries[i].snapshot)
            },
            None => None,
        }
    }

    /// Sets the snapshot of a worktree, replacing the one it had.
    pub fn insert(&mut self, worktree_id: String, snapshot: NotificationSnapshot)
        ensures
            final(self)@ == old(self)@.insert(worktree_id@, notice_view(snapshot)),
    {
        proof { use_type_invariant(&*self); }
        let ghost k = worktree_id@;
        let found = self.position(worktree_id.as_str());
        let mut es: Vec<NotificationEntry> = Vec::new();
        std::mem::swap(&mut es, &mut self.entries);
        match found {
            Some(i) => {
                proof { lemma_entries_map_remove(es@, i as int); }
                es.remove(i);
            },
            None => {},
        }
        let e = NotificationEntry { worktree_id, snapshot };
        proof { lemma_entries_map_push(es@, e); }
        es.push(e);
        self.entries = es;
        assert(self@ =~= old(self)@.insert(k, notice_view(snapshot)));
    }

    /// Takes out the snapshot of a worktree, leaving the others.
    pub fn take(&mut self, worktree_id: &str) -> (r: Option<NotificationSnapshot>)
        ensures
            final(self)@ == old(self)@.remove(worktree_id@),
            match r {
                Some(n) => old(self)@.contains_key(worktree_id@) && old(self)@[worktree_id@] == notice_view(n),
                None => !old(self)@.contains_key(worktree_id@),
            },
    {
        proof { use_type_invariant(&*self); }
        match self.position(worktree_id) {
            Some(i) => {
                proof {
                    lemma_entries_map_at(self.entries@, i as int);
                    lemma_entries_map_remove(self.entries@, i as int);
                }
                let mut es: Vec<NotificationEntry> = Vec::new();
                std::mem::swap(&mut es, &mut self.entries);
                let e = es.remove(i);
                self.entries = es;
                Some(e.snapshot)
            },
            None => {
                assert(old(self)@.remove(worktree_id@) =~= old(self)@);
                None
            },
        }
    }

    /// A copy of every worktree's snapshot.
    pub fn snapshot(&self) -> (r: Vec<NotificationEntry>)
        ensures
            distinct_ids(r@),
            entries_map(r@) == self@,
            r@.len() == self@.len(),
    {
        proof {
            use_type_invariant(self);
            lemma_entries_map_len(self.entries@);
        }
        let mut out: Vec<NotificationEntry> = Vec::new();
        let mut i: usize = 0;
        while i < self.entries.len()
            invariant
                i <= self.entries@.len(),
                out@.len() == i,
                forall|j: int| 0 <= j < i ==> (#[trigger] out@[j]).worktree_id@ == self.entries@[j].worktree_id@
                    && notice_view(out@[j].snapshot) == notice_view(self.entries@[j].snapshot),
            decreases self.entries@.len() - i,
        {
            let e = &self.entries[i];
            out.push(NotificationEntry { worktree_id: e.worktree_id.clone(), snapshot: copy_snapshot(&e.snapshot) });
            i = i + 1;
        }
        proof { lemma_entries_map_same(out@, self.entries@); }
        out
    }
}

proof fn lemma_entries_map_same(a: Seq<NotificationEntry>, b: Seq<NotificationEntry>)
    requires
        a.len() == b.len(),
        forall|j: int| 0 <= j < a.len() ==> (#[trigger] a[j]).worktree_id@ == b[j].worktree_id@
            && notice_view(a[j].snapshot) == notice_view(b[j].snapshot),
    ensures
        entries_map(a) == entries_map(b),
        distinct_ids(b) ==> distinct_ids(a),
    decreases a.len(),
{
    if a.len() > 0 {
        lemma_entries_map_same(a.drop_last(), b.drop_last());
        assert(a.last() == a[a.len() - 1] && b.last() == b[b.len() - 1]);
    }
    if distinct_ids(b) {
        assert forall|i: int, j: int| #![trigger a[i], a[j]] 0 <= i < j < a.len() implies a[i].worktree_id@ != a[j].worktree_id@ by {
            assert(b[i].worktree_id@ != b[j].worktree_id@);
        }
    }
}

/// The worktrees moved to a window of their own, by id.
pub struct DetachedWorktreeRegistry {
    ids: Vec<String>,
}

/// The ids among `s`.
pub open spec fn id_set(s: Seq<String>) -> Set<Seq<char>> {
    Set::new(|k: Seq<char>| exists|i: int| 0 <= i < s.len() && #[trigger] s[i]@ == k)
}

/// No id occurs twice among `s`.
pub open spec fn distinct_strs(s: Seq<String>) -> bool {
    forall|i: int, j: int| #![trigger s[i], s[j]] 0 <= i < j < s.len() ==> s[i]@ != s[j]@
}

proof fn lemma_id_set_push(s: Seq<String>, x: String)
    requires
        distinct_strs(s),
        !id_set(s).contains(x@),
    ensures
        distinct_strs(s.push(x)),
        id_set(s.push(x)) == id_set(s).insert(x@),
{
    let q = s.push(x);
    assert forall|i: int, j: int| #![trigger q[i], q[j]] 0 <= i < j < q.len() implies q[i]@ != q[j]@ by {
        assert(q[i] == s[i]);
        if j < s.len() {
            assert(q[j] == s[j]);
        } else if s[i]@ == x@ {
            assert(id_set(s).contains(x@));
        }
    }
    assert forall|k: Seq<char>| #[trigger] id_set(q).contains(k) <==> id_set(s).insert(x@).contains(k) by {
        if id_set(s).contains(k) {
            let i = choose|i: int| 0 <= i < s.len() && #[trigger] s[i]@ == k;
            assert(q[i] == s[i]);
        }
        if k == x@ {
            assert(q[s.len() as int] == x);
        }
        if id_set(q).contains(k) {
            let i = choose|i: int| 0 <= i < q.len() && #[trigger] q[i]@ == k;
            if i < s.len() {
                assert(q[i] == s[i]);
            }
        }
    }
    assert(id_set(q) =~= id_set(s).insert(x@));
}

proof fn lemma_id_set_remove(s: Seq<String>, p: int)
    requires
        distinct_strs(s),
        0 <= p < s.len(),
    ensures
        distinct_strs(s.remove(p)),
        id_set(s.remove(p)) == id_set(s).remove(s[p]@),
{
    let q = s.remove(p);
    assert forall|i: int, j: int| #![trigger q[i], q[j]] 0 <= i < j < q.len() implies q[i]@ != q[j]@ by {
        let i2 = if i < p { i } else { i + 1 };
        let j2 = if j < p { j } else { j + 1 };
        assert(q[i] == s[i2] && q[j] == s[j2]);
    }
    assert forall|k: Seq<char>| #[trigger] id_set(q).contains(k) <==> id_set(s).remove(s[p]@).contains(k) by {
        if id_set(q).contains(k) {
            let i = choose|i: int| 0 <= i < q.len() && #[trigger] q[i]@ == k;
            let i2 = if i < p { i } else { i + 1 };
            assert(q[i] == s[i2]);
            if i2 < p {
                assert(s[i2]@ != s[p]@);
            } else {
                assert(s[p]@ != s[i2]@);
            }
        }
        if id_set(s).remove(s[p]@).contains(k) {
            let i = choose|i: int| 0 <= i < s.len() && #[trigger] s[i]@ == k;
            assert(i != p);
            let i3 = if i < p { i } else { i - 1 };
            assert(q[i3] == s[i]);
        }
    }
    assert(id_set(q) =~= id_set(s).remove(s[p]@));
}

impl View for DetachedWorktreeRegistry {
    type V = Set<Seq<char>>;

    closed spec fn view(&self) -> Self::V {
        id_set(self.ids@)
    }
}

impl DetachedWorktreeRegistry {
    #[verifier::type_invariant]
    closed spec fn ids_distinct(self) -> bool {
        distinct_strs(self.ids@)
    }

    /// No worktree detached.
    pub fn new() -> (r: Self)
        ensures
            r@ == Set::<Seq<char>>::empty(),
    {
        let r = DetachedWorktreeRegistry { ids: Vec::new() };
        assert(r@ =~= Set::<Seq<char>>::empty());
        r
    }

    fn position(&self, worktree_id: &str) -> (r: Option<usize>)
        ensures
            match r {
                Some(i) => i < self.ids@.len() && self.ids@[i as int]@ == worktree_id@,
                None => !self@.contains(worktree_id@),
            },
    {
        let mut i: usize = 0;
        while i < self.ids.len()
            invariant
                i <= self.ids@.len(),
                forall|j: int| 0 <= j < i ==> (#[trigger] self.ids@[j])@ != worktree_id@,
            decreases self.ids@.len() - i,
        {
            if str_eq(self.ids[i].as_str(), worktree_id) {
                return Some(i);
            }
            i = i + 1;
        }
        None
    }

    /// Whether the worktree is in a window of its own.
    pub fn is_detached(&self, worktree_id: &str) -> (r: bool)
        ensures
            r == self@.contains(worktree_id@),
    {
        self.position(worktree_id).is_some()
    }

}

/// Replaces the whole mirror with what the window reported (a full replacement, not a
/// difference).
pub fn sync_notification_state(entries: Vec<NotificationEntry>, registry: &mut NotificationRegistry)
    ensures
        final(registry)@ == entries_map(entries@),
{
    let mut fresh = NotificationRegistry::new();
    let mut rest = entries;
    let ghost all = rest@;
    let ghost mut i: int = 0;
    assert(all.skip(0) =~= all);
    while rest.len() > 0
        invariant
            0 <= i <= all.len(),
            rest@ == all.skip(i),
            fresh@ == entries_map(all.take(i)),
        decreases rest@.len(),
    {
        let e = rest.remove(0);
        proof {
            assert(e == all[i]);
            assert(all.take(i + 1).drop_last() =~= all.take(i));
            assert(all.take(i + 1).last() == all[i]);
            assert(rest@ =~= all.skip(i + 1));
            i = i + 1;
        }
        fresh.insert(e.worktree_id, e.snapshot);
    }
    assert(all.take(i) =~= all);
    *registry = fresh;
}

/// Records that the worktree moved to a window of its own.
pub fn register_detached_worktree(worktree_id: String, registry: &mut DetachedWorktreeRegistry)
    ensures
        final(registry)@ == old(registry)@.insert(worktree_id@),
{
    proof { use_type_invariant(&*registry); }
    if registry.position(worktree_id.as_str()).is_none() {
        proof { lemma_id_set_push(registry.ids@, worktree_id); }
        let mut ids: Vec<String> = Vec::new();
        std::mem::swap(&mut ids, &mut registry.ids);
        ids.push(worktree_id);
        registry.ids = ids;
    } else {
        assert(old(registry)@.insert(worktree_id@) =~= old(registry)@);
    }
}

/// Records that the worktree came back to the main window.
pub fn unregister_detached_worktree(worktree_id: &str, registry: &mut DetachedWorktreeRegistry)
    ensures
        final(registry)@ == old(registry)@.remove(worktree_id@),
{
    proof { use_type_invariant(&*registry); }
    match registry.position(worktree_id) {
        Some(p) => {
            proof { lemma_id_set_remove(registry.ids@, p as int); }
            let mut ids: Vec<String> = Vec::new();
            std::mem::swap(&mut ids, &mut registry.ids);
            ids.remove(p);
            registry.ids = ids;
        },
        None => {
            assert(old(registry)@.remove(worktree_id@) =~= old(registry)@);
        },
    }
}

/// One worktree in the listing of waiting notifications.
#[derive(Debug)]
pub struct NotificationItem {
    pub worktree_id: String,
    /// The worktree's name; `None` when the settings no longer hold the worktree.
    pub worktree_name: Option<String>,
    pub count: u32,
    pub kind: String,
    pub first_notified_at: i64,
}

/// The worktrees with notifications waiting, how many there are, and how many notifications
/// they hold together (the tray badge).
#[derive(Debug)]
pub struct NotificationListing {
    pub items: Vec<NotificationItem>,
    pub worktree_count: usize,
    pub total_count: u128,
}

/// `a` comes before `b`: its first notification arrived earlier, or at the same moment and
/// its id sorts first.
pub open spec fn item_before(a: NotificationItem, b: NotificationItem) -> bool {
    a.first_notified_at < b.first_notified_at
        || (a.first_notified_at == b.first_notified_at && text_less(a.worktree_id@, b.worktree_id@))
}

proof fn lemma_item_before_transitive(a: NotificationItem, b: NotificationItem, c: NotificationItem)
    requires
        item_before(a, b),
        item_before(b, c),
    ensures
        item_before(a, c),
{
    if a.first_notified_at == b.first_notified_at && b.first_notified_at == c.first_notified_at {
        lemma_text_less_transitive(a.worktree_id@, b.worktree_id@, c.worktree_id@);
    }
}

proof fn lemma_item_before_total(a: NotificationItem, b: NotificationItem)
    requires
        a.worktree_id@ != b.worktree_id@,
    ensures
        item_before(a, b) || item_before(b, a),
{
    if a.first_notified_at == b.first_notified_at {
        lemma_text_less_total(a.worktree_id@, b.worktree_id@);
    }
}

fn item_is_before(a: &NotificationItem, b: &NotificationItem) -> (r: bool)
    ensures
        r == item_before(*a, *b),
{
    if a.first_notified_at != b.first_notified_at {
        a.first_notified_at < b.first_notified_at
    } else {
        let x = chars_of(a.worktree_id.as_str());
        let y = chars_of(b.worktree_id.as_str());
        chars_less(x.as_slice(), y.as_slice())
    }
}

/// The name of the first worktree with id `id` in `ws`, if there is one.
pub open spec fn worktree_name_of(ws: Seq<WorktreeEntry>, id: Seq<char>) -> Option<Seq<char>> {
    match first_with_id(ws, id) {
        Some(i) => Some(ws[i].name@),
        None => None,
    }
}

/// What an item says of its worktree's notifications: (count, kind, first arrival).
pub open spec fn item_notice(x: NotificationItem) -> (u32, Seq<char>, i64) {
    (x.count, x.kind@, x.first_notified_at)
}

/// The worktree ids of the items, in order.
pub open spec fn item_ids(items: Seq<NotificationItem>) -> Seq<Seq<char>> {
    items.map_values(|x: NotificationItem| x.worktree_id@)
}

/// `items` lists the snapshots `m`: one item per worktree, oldest first arrival first (equal
/// arrivals ordered by id), each with its snapshot and the worktree's name in `ws`.
pub open spec fn lists_notifications(
    items: Seq<NotificationItem>,
    m: Map<Seq<char>, (u32, Seq<char>, i64)>,
    ws: Seq<WorktreeEntry>,
) -> bool {
    &&& forall|i: int, j: int| 0 <= i < j < items.len() ==> item_before(#[trigger] items[i], #[trigger] items[j])
    &&& forall|k: Seq<char>| m.contains_key(k) <==> #[trigger] item_ids(items).contains(k)
    &&& forall|i: int| 0 <= i < items.len() ==> {
        &&& m.contains_key(#[trigger] items[i].worktree_id@)
        &&& m[items[i].worktree_id@] == item_notice(items[i])
        &&& opt_chars(items[i].worktree_name) == worktree_name_of(ws, items[i].worktree_id@)
    }
}

/// The notifications the items hold together.
pub open spec fn counts_total(items: Seq<NotificationItem>) -> int
    decreases items.len(),
{
    if items.len() == 0 {
        0
    } else {
        counts_total(items.drop_last()) + items.last().count
    }
}

/// The worktrees that have notifications waiting, oldest first notification first (the order
/// the tray walks them in; equal arrivals by id), with each worktree's name from the settings,
/// and the totals.
pub fn list_notifications(settings: &AppSettings, registry: &NotificationRegistry) -> (r: NotificationListing)
    ensures
        lists_notifications(r.items@, registry@, settings.worktrees@),
        r.worktree_count == r.items@.len(),
        r.total_count == counts_total(r.items@),
{
    proof { use_type_invariant(registry); }
    let es = &registry.entries;
    let ghost ws = settings.worktrees@;
    let mut out: Vec<NotificationItem> = Vec::new();
    let mut i: usize = 0;
    assert(es@.take(0) =~= Seq::<NotificationEntry>::empty());
    assert(entries_map(es@.take(0)) =~= Map::<Seq<char>, (u32, Seq<char>, i64)>::empty());
    while i < es.len()
        invariant
            i <= es@.len(),
            distinct_ids(es@),
            ws == settings.worktrees@,
            forall|a: int, b: int| 0 <= a < b < out@.len() ==> item_before(#[trigger] out@[a], #[trigger] out@[b]),
            forall|k: Seq<char>| entries_map(es@.take(i as int)).contains_key(k) <==> #[trigger] item_ids(out@).contains(k),
            forall|a: int| 0 <= a < out@.len() ==> {
                &&& entries_map(es@.take(i as int)).contains_key(#[trigger] out@[a].worktree_id@)
                &&& entries_map(es@.take(i as int))[out@[a].worktree_id@] == item_notice(out@[a])
                &&& opt_chars(out@[a].worktree_name) == worktree_name_of(ws, out@[a].worktree_id@)
            },
        decreases es@.len() - i,
    {
        let e = &es[i];
        let ghost k = e.worktree_id@;
        let ghost m = entries_map(es@.take(i as int));
        proof {
            lemma_entries_map_key(es@.take(i as int), k);
            if m.contains_key(k) {
                let j = choose|j: int| 0 <= j < es@.take(i as int).len() && #[trigger] es@.take(i as int)[j].worktree_id@ == k;
                assert(es@.take(i as int)[j] == es@[j]);
            }
            assert(es@.take(i + 1).drop_last() =~= es@.take(i as int));
            assert(es@.take(i + 1).last() == es@[i as int]);
        }
        let name = match find_worktree_by_id(settings, e.worktree_id.as_str()) {
            Some(w) => Some(w.name.clone()),
            None => None,
        };
        let x = NotificationItem {
            worktree_id: e.worktree_id.clone(),
            worktree_name: name,
            count: e.snapshot.count,
            kind: e.snapshot.kind.clone(),
            first_notified_at: e.snapshot.first_notified_at,
        };
        let mut pos: usize = 0;
        while pos < out.len() && item_is_before(&out[pos], &x)
            invariant
                pos <= out@.len(),
                forall|a: int| 0 <= a < pos ==> item_before(#[trigger] out@[a], x),
            decreases out@.len() - pos,
        {
            pos = pos + 1;
        }
        proof {
            if pos < out@.len() {
                assert(item_ids(out@)[pos as int] == out@[pos as int].worktree_id@);
                assert(out@[pos as int].worktree_id@ != k);
                lemma_item_before_total(out@[pos as int], x);
            }
        }
        let ghost before = out@;
        out.insert(pos, x);
        proof {
            let m2 = entries_map(es@.take(i + 1));
            assert(m2 == m.insert(k, notice_view(es@[i as int].snapshot)));
            assert forall|a: int, b: int| 0 <= a < b < out@.len() implies item_before(#[trigger] out@[a], #[trigger] out@[b]) by {
                if b == pos {
                    assert(out@[a] == before[a]);
                } else if a == pos {
                    assert(out@[b] == before[b - 1]);
                    if b - 1 > pos {
                        lemma_item_before_transitive(x, before[pos as int], before[b - 1]);
                    }
                } else if a > pos {
                    assert(out@[a] == before[a - 1] && out@[b] == before[b - 1]);
                } else if b > pos {
                    assert(out@[a] == before[a] && out@[b] == before[b - 1]);
                } else {
                    assert(out@[a] == before[a] && out@[b] == before[b]);
                }
            }
            assert forall|kk: Seq<char>| m2.contains_key(kk) <==> #[trigger] item_ids(out@).contains(kk) by {
                if item_ids(out@).contains(kk) {
                    let a = choose|a: int| 0 <= a < item_ids(out@).len() && item_ids(out@)[a] == kk;
                    assert(item_ids(out@)[a] == out@[a].worktree_id@);
                    if a < pos {
                        assert(out@[a] == before[a]);
                        assert(item_ids(before)[a] == kk);
                    } else if a > pos {
                        assert(out@[a] == before[a - 1]);
                        assert(item_ids(before)[a - 1] == kk);
                    }
                }
                if m2.contains_key(kk) && kk != k {
                    assert(item_ids(before).contains(kk));
                    let b = choose|b: int| 0 <= b < item_ids(before).len() && item_ids(before)[b] == kk;
                    let a = if b < pos { b } else { b + 1 };
                    assert(out@[a] == before[b]);
                    assert(item_ids(out@)[a] == kk);
                }
                if kk == k {
                    assert(item_ids(out@)[pos as int] == k);
                }
            }
            assert forall|a: int| 0 <= a < out@.len() implies {
                &&& m2.contains_key(#[trigger] out@[a].worktree_id@)
                &&& m2[out@[a].worktree_id@] == item_notice(out@[a])
                &&& opt_chars(out@[a].worktree_name) == worktree_name_of(ws, out@[a].worktree_id@)
            } by {
                if a < pos {
                    assert(out@[a] == before[a]);
                    assert(item_ids(before)[a] == before[a].worktree_id@);
                } else if a > pos {
                    assert(out@[a] == before[a - 1]);
                    assert(item_ids(before)[a - 1] == before[a - 1].worktree_id@);
                }
            }
        }
        i = i + 1;
    }
    assert(es@.take(es@.len() as int) =~= es@);
    let mut total: u128 = 0;
    let mut j: usize = 0;
    while j < out.len()
        invariant
            j <= out@.len(),
            total == counts_total(out@.take(j as int)),
            total <= j * 0xFFFF_FFFFu128,
        decreases out@.len() - j,
    {
        assert(out@.take(j + 1).drop_last() =~= out@.take(j as int));
        total = total + out[j].count as u128;
        j = j + 1;
    }
    assert(out@.take(out@.len() as int) =~= out@);
    let n = out.len();
    NotificationListing { items: out, worktree_count: n, total_count: total }
}

} // verus!
