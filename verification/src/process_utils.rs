//! Bookkeeping of cancellable processes and worktree removals, and the path logic
//! used to find processes working inside a directory and to rebuild `PATH`.

use vstd::prelude::*;
use vstd::hash_map::{HashMapWithView, StringHashMap};
use crate::text::{
    chars_of, chars_split, chars_join, chars_trim, chars_trim_end_char, chars_replace_char, chars_starts_with, list_has, string_of, to_lowercase, is_prefix, lowercase, trim, trim_end_char, replace_char, split_on, join_with, vviews,
};

verus! {

broadcast use vstd::string::group_string_axioms;

/// Which process (by pid) is running for each key (a worktree id, ...).
pub struct CancellableManager {
    in_progress: StringHashMap<u32>,
}

impl View for CancellableManager {
    type V = Map<Seq<char>, u32>;

    closed spec fn view(&self) -> Map<Seq<char>, u32> {
        self.in_progress@
    }
}

impl CancellableManager {
    /// No process is tracked.
    pub fn new() -> (r: Self)
        ensures
            r@ == Map::<Seq<char>, u32>::empty(),
    {
        CancellableManager { in_progress: StringHashMap::new() }
    }

    /// Whether a process is tracked for `key`.
    pub fn is_in_progress(&self, key: &str) -> (r: Result<bool, String>)
        ensures
            r == Ok::<bool, String>(self@.contains_key(key@)),
    {
        Ok(self.in_progress.contains_key(key))
    }

    /// Tracks `pid` for `key`, replacing any earlier pid.
    pub fn register(&mut self, key: String, pid: u32) -> (r: Result<(), String>)
        ensures
            r is Ok,
            final(self)@ == old(self)@.insert(key@, pid),
    {
        self.in_progress.insert(key, pid);
        Ok(())
    }

    /// Stops tracking `key` and returns the pid that was tracked for it.
    pub fn remove(&mut self, key: &str) -> (r: Result<Option<u32>, String>)
        ensures
            r == Ok::<Option<u32>, String>(
                if old(self)@.contains_key(key@) { Some(old(self)@[key@]) } else { None },
            ),
            final(self)@ == old(self)@.remove(key@),
    {
        let found = match self.in_progress.get(key) {
            Some(pid) => Some(*pid),
            None => None,
        };
        self.in_progress.remove(key);
        Ok(found)
    }

    /// Stops tracking `key`; the returned pid is the process whose tree must now be killed.
    pub fn cancel(&mut self, key: &str) -> (r: Result<Option<u32>, String>)
        ensures
            r == Ok::<Option<u32>, String>(
                if old(self)@.contains_key(key@) { Some(old(self)@[key@]) } else { None },
            ),
            final(self)@ == old(self)@.remove(key@),
    {
        self.remove(key)
    }
}

/// The state of one cancel flag: whether it is set, and whether a key still names it.
#[derive(Clone, Copy, PartialEq, Eq, Debug)]
pub struct FlagState {
    pub cancelled: bool,
    pub named: bool,
}

/// Cancel flags of running worktree removals. Each removal gets a fresh flag; the key
/// (the worktree path) names the flag of the latest removal started for it. A flag
/// lives until its removal releases it, so a removal whose key was forgotten or
/// reused still reads its own flag.
pub struct WorktreeRemoveManager {
    keys: StringHashMap<u64>,
    flags: HashMapWithView<u64, FlagState>,
    next_id: u64,
}

impl WorktreeRemoveManager {
    /// The flag currently named by each key.
    pub closed spec fn key_map(&self) -> Map<Seq<char>, u64> {
        self.keys@
    }

    /// The live flags.
    pub closed spec fn flag_map(&self) -> Map<u64, FlagState> {
        self.flags@
    }

    /// The id the next flag will get.
    pub closed spec fn next(&self) -> u64 {
        self.next_id
    }

    /// Keys name live flags that know they are named, one key per flag; a flag marked
    /// named has a key; every live flag id was handed out.
    pub closed spec fn wf(&self) -> bool {
        &&& forall|k: Seq<char>| #[trigger] self.keys@.contains_key(k) ==> {
            &&& self.flags@.contains_key(self.keys@[k])
            &&& self.flags@[self.keys@[k]].named
        }
        &&& forall|k1: Seq<char>, k2: Seq<char>|
            #[trigger] self.keys@.contains_key(k1) && #[trigger] self.keys@.contains_key(k2) && k1 != k2
                ==> self.keys@[k1] != self.keys@[k2]
        &&& forall|id: u64| #[trigger] self.flags@.contains_key(id) && self.flags@[id].named
            ==> self.keys@.contains_value(id)
        &&& forall|id: u64| #[trigger] self.flags@.contains_key(id) ==> id < self.next_id
    }

    /// No removal is running.
    pub fn new() -> (r: Self)
        ensures
            r.wf(),
            r.key_map() == Map::<Seq<char>, u64>::empty(),
            r.flag_map() == Map::<u64, FlagState>::empty(),
            r.next() == 0,
    {
        WorktreeRemoveManager { keys: StringHashMap::new(), flags: HashMapWithView::new(), next_id: 0 }
    }

    /// Starts a removal under `key`: a fresh, unset flag that `key` now names (a flag
    /// that `key` named before is no longer named). Returns the flag's id, which the
    /// removal polls with [`Self::is_cancelled`] and hands back with [`Self::release`].
    pub fn create_cancel_flag(&mut self, key: &str) -> (id: u64)
        requires
            old(self).wf(),
            old(self).next() < u64::MAX,
        ensures
            final(self).wf(),
            flag_created(*old(self), key@, id, *final(self)),
            forall|i: u64| #[trigger] old(self).flag_map().contains_key(i) ==> {
                &&& i != id
                &&& final(self).flag_map().contains_key(i)
                &&& final(self).flag_map()[i].cancelled == old(self).flag_map()[i].cancelled
            },
            forall|k: Seq<char>| #[trigger] old(self).key_map().contains_key(k) && k != key@
                ==> final(self).flag_map()[old(self).key_map()[k]] == old(self).flag_map()[old(self).key_map()[k]],
    {
        let id = self.next_id;
        self.unname(key);
        let ghost mid_keys = self.keys@;
        let ghost mid_flags = self.flags@;
        self.flags.insert(id, FlagState { cancelled: false, named: true });
        self.keys.insert(key.to_string(), id);
        self.next_id = id + 1;
        proof {
            let km = self.keys@;
            let fm = self.flags@;
            assert forall|k: Seq<char>| #[trigger] km.contains_key(k) implies fm.contains_key(km[k]) && fm[km[k]].named by {
                if k != key@ {
                    assert(mid_keys.contains_key(k));
                    assert(mid_flags.contains_key(mid_keys[k]));
                    assert(mid_keys[k] != id);
                }
            }
            assert forall|i: u64| #[trigger] fm.contains_key(i) && fm[i].named implies km.contains_value(i) by {
                if i == id {
                    assert(km.contains_key(key@) && km[key@] == id);
                    assert(km.contains_value(i));
                } else {
                    assert(mid_flags.contains_key(i));
                    assert(mid_flags[i].named);
                    assert(mid_keys.contains_value(i));
                    let k = choose|k: Seq<char>| mid_keys.contains_key(k) && mid_keys[k] == i;
                    assert(k != key@);
                    assert(km.contains_key(k) && km[k] == i);
                    assert(km.contains_value(i));
                }
            }
            assert forall|k1: Seq<char>, k2: Seq<char>|
                #[trigger] km.contains_key(k1) && #[trigger] km.contains_key(k2) && k1 != k2
                implies km[k1] != km[k2] by {
                if k1 != key@ && k2 != key@ {
                    assert(mid_keys.contains_key(k1) && mid_keys.contains_key(k2));
                } else if k1 == key@ {
                    assert(mid_keys.contains_key(k2));
                    assert(mid_flags.contains_key(mid_keys[k2]));
                } else {
                    assert(mid_keys.contains_key(k1));
                    assert(mid_flags.contains_key(mid_keys[k1]));
                }
            }
        }
        proof {
            if old(self).key_map().contains_key(key@) {
                assert forall|k: Seq<char>| #[trigger] old(self).key_map().contains_key(k) && k != key@
                    implies old(self).key_map()[k] != old(self).key_map()[key@] by {}
            }
            assert(self.keys@ =~= old(self).keys@.insert(key@, id));
            assert(self.flags@ =~= mid_flags.insert(id, FlagState { cancelled: false, named: true }));
        }
        id
    }

    /// Two different keys never name the same flag, and the flag a key names is live,
    /// named, and was handed out before: setting one key's flag reaches no other key.
    pub proof fn lemma_keys_name_own_flags(&self, k1: Seq<char>, k2: Seq<char>)
        requires
            self.wf(),
            self.key_map().contains_key(k1),
        ensures
            self.flag_map().contains_key(self.key_map()[k1]),
            self.flag_map()[self.key_map()[k1]].named,
            self.key_map()[k1] < self.next(),
            self.key_map().contains_key(k2) && k1 != k2 ==> self.key_map()[k1] != self.key_map()[k2],
    {
    }

    /// Marks the flag that `key` names (if any) as no longer named and forgets `key`.
    fn unname(&mut self, key: &str)
        requires
            old(self).wf(),
        ensures
            final(self).next_id == old(self).next_id,
            final(self).keys@ == old(self).keys@.remove(key@),
            final(self).flags@ == if old(self).keys@.contains_key(key@) {
                old(self).flags@.insert(
                    old(self).keys@[key@],
                    FlagState { cancelled: old(self).flags@[old(self).keys@[key@]].cancelled, named: false },
                )
            } else {
                old(self).flags@
            },
            final(self).wf(),
    {
        let found = match self.keys.get(key) {
            Some(id) => Some(*id),
            None => None,
        };
        match found {
            Some(old_id) => {
                let st = match self.flags.get(&old_id) {
                    Some(st) => *st,
                    None => FlagState { cancelled: false, named: false },
                };
                self.flags.insert(old_id, FlagState { cancelled: st.cancelled, named: false });
            },
            None => {},
        }
        self.keys.remove(key);
        proof {
            let km = self.keys@;
            let fm = self.flags@;
            assert forall|k: Seq<char>| #[trigger] km.contains_key(k) implies fm.contains_key(km[k]) && fm[km[k]].named by {
                assert(old(self).keys@.contains_key(k));
                if found is Some {
                    assert(old(self).keys@[k] != old(self).keys@[key@]);
                }
            }
            assert forall|i: u64| #[trigger] fm.contains_key(i) && fm[i].named implies km.contains_value(i) by {
                if found is Some {
                    assert(i != old(self).keys@[key@]);
                }
                assert(old(self).flags@.contains_key(i) && old(self).flags@[i].named);
                assert(old(self).keys@.contains_value(i));
                let k = choose|k: Seq<char>| old(self).keys@.contains_key(k) && old(self).keys@[k] == i;
                assert(k != key@);
                assert(km.contains_key(k) && km[k] == i);
            }
        }
    }

    /// Sets the flag that `key` names; returns whether `key` named one.
    pub fn cancel(&mut self, key: &str) -> (r: bool)
        requires
            old(self).wf(),
        ensures
            final(self).wf(),
            key_cancelled(*old(self), key@, r, *final(self)),
            forall|k: Seq<char>| #[trigger] old(self).key_map().contains_key(k) && k != key@
                ==> final(self).flag_map()[old(self).key_map()[k]] == old(self).flag_map()[old(self).key_map()[k]],
            forall|id: u64| #[trigger] old(self).flag_map().contains_key(id) && !old(self).flag_map()[id].named
                ==> final(self).flag_map()[id] == old(self).flag_map()[id],
    {
        proof {
            if old(self).key_map().contains_key(key@) {
                assert forall|k: Seq<char>| #[trigger] old(self).key_map().contains_key(k) && k != key@
                    implies old(self).key_map()[k] != old(self).key_map()[key@] by {}
            }
        }
        match self.keys.get(key) {
            Some(id) => {
                let id = *id;
                self.flags.insert(id, FlagState { cancelled: true, named: true });
                true
            },
            None => false,
        }
    }

    /// Forgets `key`; the removal still holding its flag keeps reading it.
    pub fn remove(&mut self, key: &str)
        requires
            old(self).wf(),
        ensures
            final(self).wf(),
            key_removed(*old(self), key@, *final(self)),
            forall|k: Seq<char>| #[trigger] old(self).key_map().contains_key(k) && k != key@
                ==> final(self).flag_map()[old(self).key_map()[k]] == old(self).flag_map()[old(self).key_map()[k]],
            forall|i: u64| #[trigger] old(self).flag_map().contains_key(i) ==> {
                &&& final(self).flag_map().contains_key(i)
                &&& final(self).flag_map()[i].cancelled == old(self).flag_map()[i].cancelled
            },
    {
        self.unname(key);
        proof {
            if old(self).key_map().contains_key(key@) {
                assert forall|k: Seq<char>| #[trigger] old(self).key_map().contains_key(k) && k != key@
                    implies old(self).key_map()[k] != old(self).key_map()[key@] by {}
            }
        }
    }

    /// Whether flag `id` has been set.
    pub fn is_cancelled(&self, id: u64) -> (r: bool)
        ensures
            r == (self.flag_map().contains_key(id) && self.flag_map()[id].cancelled),
    {
        match self.flags.get(&id) {
            Some(st) => st.cancelled,
            None => false,
        }
    }

    /// Drops flag `id` once its removal has finished, unless a key still names it.
    pub fn release(&mut self, id: u64)
        requires
            old(self).wf(),
        ensures
            final(self).wf(),
            final(self).key_map() == old(self).key_map(),
            final(self).next() == old(self).next(),
            final(self).flag_map() == if old(self).flag_map().contains_key(id) && old(self).flag_map()[id].named {
                old(self).flag_map()
            } else {
                old(self).flag_map().remove(id)
            },
    {
        let named = match self.flags.get(&id) {
            Some(st) => st.named,
            None => false,
        };
        if !named {
            self.flags.remove(&id);
            assert(self.flags@ == old(self).flags@.remove(id));
        }
    }
}

/// `after` is `before` with a removal started under `key`, whose fresh flag is `id`: the
/// next id, unset, named by `key`; the flag `key` named before keeps its state but is no
/// longer named.
pub open spec fn flag_created(before: WorktreeRemoveManager, key: Seq<char>, id: u64, after: WorktreeRemoveManager)
    -> bool {
    &&& id == before.next()
    &&& !before.flag_map().contains_key(id)
    &&& after.key_map() == before.key_map().insert(key, id)
    &&& after.flag_map() == (if before.key_map().contains_key(key) {
        before.flag_map().insert(
            before.key_map()[key],
            FlagState { cancelled: before.flag_map()[before.key_map()[key]].cancelled, named: false },
        )
    } else {
        before.flag_map()
    }).insert(id, FlagState { cancelled: false, named: true })
    &&& after.next() == before.next() + 1
}

/// `after` is `before` once `key` was cancelled: `named` tells whether `key` named a flag,
/// and that flag, and no other, is now set.
pub open spec fn key_cancelled(before: WorktreeRemoveManager, key: Seq<char>, named: bool, after: WorktreeRemoveManager)
    -> bool {
    &&& named == before.key_map().contains_key(key)
    &&& after.key_map() == before.key_map()
    &&& after.next() == before.next()
    &&& after.flag_map() == if named {
        before.flag_map().insert(before.key_map()[key], FlagState { cancelled: true, named: true })
    } else {
        before.flag_map()
    }
}

/// `after` is `before` once `key` was forgotten: the flag it named keeps its state but is
/// no longer named.
pub open spec fn key_removed(before: WorktreeRemoveManager, key: Seq<char>, after: WorktreeRemoveManager) -> bool {
    &&& after.key_map() == before.key_map().remove(key)
    &&& after.next() == before.next()
    &&& after.flag_map() == if before.key_map().contains_key(key) {
        before.flag_map().insert(
            before.key_map()[key],
            FlagState { cancelled: before.flag_map()[before.key_map()[key]].cancelled, named: false },
        )
    } else {
        before.flag_map()
    }
}

/// A removal started under a key is reached by a later cancel of that key: the cancel
/// reports the key, sets the new flag, and leaves every flag that existed before the
/// removal started as it was, among them the flag of an earlier removal under that key.
pub proof fn lemma_cancel_reaches_the_latest_flag_only(
    m0: WorktreeRemoveManager,
    key: Seq<char>,
    id: u64,
    m1: WorktreeRemoveManager,
    named: bool,
    m2: WorktreeRemoveManager,
)
    requires
        m0.wf(),
        flag_created(m0, key, id, m1),
        key_cancelled(m1, key, named, m2),
    ensures
        named,
        m2.flag_map().contains_key(id) && m2.flag_map()[id].cancelled,
        forall|f: u64| #[trigger] m0.flag_map().contains_key(f) ==> {
            &&& f != id
            &&& m2.flag_map().contains_key(f)
            &&& m2.flag_map()[f].cancelled == m0.flag_map()[f].cancelled
        },
{
    assert(m1.key_map()[key] == id);
}

/// Once a key is forgotten, cancelling it reports nothing and sets nothing: the flag of
/// the removal started under it stays unset.
pub proof fn lemma_removed_key_cancels_nothing(
    m0: WorktreeRemoveManager,
    key: Seq<char>,
    id: u64,
    m1: WorktreeRemoveManager,
    m2: WorktreeRemoveManager,
    named: bool,
    m3: WorktreeRemoveManager,
)
    requires
        m0.wf(),
        flag_created(m0, key, id, m1),
        key_removed(m1, key, m2),
        key_cancelled(m2, key, named, m3),
    ensures
        !named,
        m3.flag_map().contains_key(id),
        !m3.flag_map()[id].cancelled,
        m3.flag_map() == m2.flag_map(),
{
    assert(m1.key_map()[key] == id);
    assert(!m2.key_map().contains_key(key));
}

/// A path prepared for comparison: `\` turned into `/`, trailing `/` removed, lowercased.
pub open spec fn folded_path(p: Seq<char>) -> Seq<char> {
    lowercase(trim_end_char(replace_char(p, '\\', '/'), '/'))
}

/// Prepares a path for comparison: `\` → `/`, trailing `/` removed, lowercased.
pub fn normalize_path_for_cmp(path: &str) -> (r: String)
    ensures
        r@ == folded_path(path@),
{
    fold_path(path)
}

fn fold_path(path: &str) -> (r: String)
    ensures
        r@ == folded_path(path@),
{
    let v = chars_of(path);
    let replaced = chars_replace_char(v.as_slice(), '\\', '/');
    let trimmed = chars_trim_end_char(replaced.as_slice(), '/');
    let s = string_of(trimmed.as_slice());
    to_lowercase(s.as_str())
}

/// `cwd` is `target` or lies below it (the next character after `target` is a separator).
pub open spec fn within_dir(cwd: Seq<char>, target: Seq<char>) -> bool {
    is_prefix(target, cwd) && (cwd.len() == target.len() || cwd[target.len() as int] == '\\'
        || cwd[target.len() as int] == '/')
}

/// Whether the (normalized) `cwd` is the (normalized) `target` or lies below it.
pub fn cwd_within(cwd: &[char], target: &[char]) -> (r: bool)
    ensures
        r == within_dir(cwd@, target@),
{
    if !chars_starts_with(cwd, target) {
        return false;
    }
    if cwd.len() == target.len() {
        return true;
    }
    let c = cwd[target.len()];
    c == '\\' || c == '/'
}

/// A process and its working directory, when it could be read.
#[derive(Clone, Debug)]
pub struct ProcessCwd {
    pub pid: u32,
    pub cwd: Option<String>,
}

/// Whether process `p` is another process (not ours, not pid 0) working in `dir` or below.
pub open spec fn process_in_dir(p: ProcessCwd, dir: Seq<char>, our_pid: u32) -> bool {
    p.pid != our_pid && p.pid != 0 && match p.cwd {
        Some(c) => within_dir(folded_path(c@), folded_path(dir)),
        None => false,
    }
}

/// The pids, in order, of the processes in `procs` working in `dir` or below.
pub open spec fn pids_in_dir(procs: Seq<ProcessCwd>, dir: Seq<char>, our_pid: u32) -> Seq<u32>
    decreases procs.len(),
{
    if procs.len() == 0 {
        Seq::<u32>::empty()
    } else {
        let rest = pids_in_dir(procs.drop_last(), dir, our_pid);
        if process_in_dir(procs.last(), dir, our_pid) {
            rest.push(procs.last().pid)
        } else {
            rest
        }
    }
}

/// Among a snapshot of processes, those other than ours working in `dir` or below.
pub fn find_processes_by_cwd(dir: &str, procs: &[ProcessCwd], our_pid: u32) -> (r: Vec<u32>)
    ensures
        r@ == pids_in_dir(procs@, dir@, our_pid),
{
    let target = fold_path(dir);
    let tv = chars_of(target.as_str());
    let mut out: Vec<u32> = Vec::new();
    let mut i: usize = 0;
    while i < procs.len()
        invariant
            i <= procs.len(),
            tv@ == folded_path(dir@),
            out@ == pids_in_dir(procs@.take(i as int), dir@, our_pid),
        decreases procs.len() - i,
    {
        let p = &procs[i];
        assert(procs@.take(i + 1).drop_last() == procs@.take(i as int));
        assert(procs@.take(i + 1).last() == procs@[i as int]);
        if p.pid != our_pid && p.pid != 0 {
            match &p.cwd {
                Some(c) => {
                    let cn = fold_path(c.as_str());
                    let cv = chars_of(cn.as_str());
                    if cwd_within(cv.as_slice(), tv.as_slice()) {
                        out.push(p.pid);
                    }
                },
                None => {},
            }
        }
        i = i + 1;
    }
    assert(procs@.take(procs.len() as int) == procs@);
    out
}

/// The processes whose trees must be killed before removing `dir`: every other process
/// of the snapshot working in `dir` or below. The caller kills them and reports how many.
pub fn kill_external_processes_in_dir(dir: &str, procs: &[ProcessCwd], our_pid: u32) -> (r: Vec<u32>)
    ensures
        r@ == pids_in_dir(procs@, dir@, our_pid),
{
    find_processes_by_cwd(dir, procs, our_pid)
}

/// `PATH` entries in order: each trimmed, empty ones dropped, repeats dropped (first kept).
pub open spec fn merged_entries(parts: Seq<Seq<char>>) -> Seq<Seq<char>>
    decreases parts.len(),
{
    if parts.len() == 0 {
        Seq::<Seq<char>>::empty()
    } else {
        let m = merged_entries(parts.drop_last());
        let t = trim(parts.last());
        if t.len() == 0 || m.contains(t) {
            m
        } else {
            m.push(t)
        }
    }
}

/// `base` then `additions`, as one `:`-separated `PATH` without empty or repeated entries.
pub open spec fn merged_path(base: Seq<char>, additions: Seq<char>) -> Seq<char> {
    join_with(merged_entries(split_on(base, ':') + split_on(additions, ':')), seq![':'])
}

/// Merges two `:`-separated `PATH` values: entries trimmed, empty and repeated ones dropped.
pub fn merge_paths(base: &str, additions: &str) -> (r: String)
    ensures
        r@ == merged_path(base@, additions@),
{
    let bv = chars_of(base);
    let av = chars_of(additions);
    let mut parts = chars_split(bv.as_slice(), ':');
    let more = chars_split(av.as_slice(), ':');
    let ghost all = vviews(parts@) + vviews(more@);
    let mut k: usize = 0;
    let ghost p0 = parts@;
    while k < more.len()
        invariant
            k <= more.len(),
            vviews(parts@) == vviews(p0) + vviews(more@).take(k as int),
            all == vviews(p0) + vviews(more@),
        decreases more.len() - k,
    {
        let ghost before = parts@;
        parts.push(more[k].clone());
        assert(vviews(parts@) =~= vviews(before).push(more@[k as int]@));
        assert(vviews(more@).take(k + 1) == vviews(more@).take(k as int).push(more@[k as int]@));
        k = k + 1;
    }
    assert(vviews(more@).take(more.len() as int) == vviews(more@));
    let mut out: Vec<Vec<char>> = Vec::new();
    let mut i: usize = 0;
    while i < parts.len()
        invariant
            i <= parts.len(),
            vviews(parts@) == all,
            vviews(out@) == merged_entries(all.take(i as int)),
        decreases parts.len() - i,
    {
        assert(all.take(i + 1).drop_last() == all.take(i as int));
        assert(all.take(i + 1).last() == parts@[i as int]@);
        let t = chars_trim(parts[i].as_slice());
        if t.len() > 0 && !list_has(&out, t.as_slice()) {
            let ghost before = out@;
            out.push(t);
            assert(vviews(out@) =~= vviews(before).push(out@.last()@));
        }
        i = i + 1;
    }
    assert(all.take(parts.len() as int) == all);
    let sep = vec![':'];
    assert(sep@ == seq![':']);
    let joined = chars_join(&out, sep.as_slice());
    string_of(joined.as_slice())
}


/// What a login shell's `echo $PATH` printed, read as a `PATH`: its last non-blank line,
/// trimmed, when it holds a `/` (banners and messages of the day come before it).
pub open spec fn shell_path_of(lines: Seq<Seq<char>>) -> Option<Seq<char>>
    decreases lines.len(),
{
    if lines.len() == 0 {
        None
    } else if trim(lines.last()).len() > 0 {
        let t = trim(lines.last());
        if t.contains('/') { Some(t) } else { None }
    } else {
        shell_path_of(lines.drop_last())
    }
}

/// The `PATH` a login shell printed on `stdout`, if it printed one.
pub fn shell_path_from_output(stdout: &str) -> (r: Option<String>)
    ensures
        match r {
            Some(p) => shell_path_of(crate::artifacts::text_lines(stdout@)) == Some(p@),
            None => shell_path_of(crate::artifacts::text_lines(stdout@)) is None,
        },
{
    let lines = crate::artifacts::lines_of(chars_of(stdout).as_slice());
    let ghost ls = crate::artifacts::text_lines(stdout@);
    let mut i: usize = lines.len();
    assert(ls.take(lines.len() as int) == ls);
    while i > 0
        invariant
            i <= lines@.len(),
            vviews(lines@) == ls,
            ls == crate::artifacts::text_lines(stdout@),
            shell_path_of(ls) == shell_path_of(ls.take(i as int)),
        decreases i,
    {
        let t = chars_trim(lines[i - 1].as_slice());
        let ghost s = ls.take(i as int);
        assert(s.drop_last() == ls.take(i - 1));
        assert(s.last() == lines@[i - 1]@);
        if t.len() > 0 {
            if crate::text::chars_has(t.as_slice(), '/') {
                return Some(string_of(t.as_slice()));
            }
            return None;
        }
        i = i - 1;
    }
    None
}

/// The directories always added to the `PATH` of a login shell's user, home being `home`.
pub open spec fn well_known_paths(home: Seq<char>) -> Seq<Seq<char>> {
    seq![home + "/.local/bin"@, "/usr/local/bin"@, "/opt/homebrew/bin"@, home + "/.cargo/bin"@]
}

/// What is merged into the current `PATH`: the login shell's `PATH` (when it gave one), then
/// the well-known directories, `:`-separated.
pub fn login_shell_additions(shell_path: Option<&str>, home: &str) -> (r: String)
    ensures
        r@ == match shell_path {
            Some(p) => p@ + ":"@ + join_with(well_known_paths(home@), ":"@),
            None => join_with(well_known_paths(home@), ":"@),
        },
{
    let mut a = String::from_str(home);
    a.append("/.local/bin");
    let mut d = String::from_str(home);
    d.append("/.cargo/bin");
    let mut parts: Vec<Vec<char>> = Vec::new();
    parts.push(chars_of(a.as_str()));
    parts.push(chars_of("/usr/local/bin"));
    parts.push(chars_of("/opt/homebrew/bin"));
    parts.push(chars_of(d.as_str()));
    proof {
        reveal_strlit("/.local/bin");
        reveal_strlit("/.cargo/bin");
    }
    assert(vviews(parts@) =~= well_known_paths(home@));
    let colon = chars_of(":");
    let joined = string_of(chars_join(&parts, colon.as_slice()).as_slice());
    match shell_path {
        Some(p) => {
            let mut r = String::from_str(p);
            r.append(":");
            r.append(joined.as_str());
            proof { reveal_strlit(":"); }
            r
        },
        None => joined,
    }
}

} // verus!
