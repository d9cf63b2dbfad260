//! The local tool server: port settings, request authorization, peer health and the
//! answers the UI sends back for long-running requests.

use vstd::prelude::*;
use subtle::ConstantTimeEq;
use vstd::hash_map::HashMapWithView;
use vstd::utf8::encode_utf8_decode_utf8;
use crate::text::{trim, is_prefix, chars_of, chars_trim, chars_starts_with, string_of, str_eq};

verus! {

broadcast use vstd::string::group_string_axioms;

/// Whether `c` is an ASCII digit.
pub open spec fn is_digit(c: char) -> bool {
    '0' <= c && c <= '9'
}

/// The value of a run of decimal digits.
pub open spec fn digits_value(s: Seq<char>) -> nat
    decreases s.len(),
{
    if s.len() == 0 {
        0
    } else {
        digits_value(s.drop_last()) * 10 + ((s.last() as u32) - ('0' as u32)) as nat
    }
}

/// Whether every character of `d` is an ASCII digit.
pub open spec fn all_digits(d: Seq<char>) -> bool {
    forall|i: int| 0 <= i < d.len() ==> is_digit(#[trigger] d[i])
}

/// The digits of an unsigned number's text: the text without one leading `+`.
pub open spec fn unsigned_digits(s: Seq<char>) -> Seq<char> {
    if s.len() > 0 && s[0] == '+' { s.drop_first() } else { s }
}

/// The `u16` a text denotes as std's `u16::from_str` reads it: an optional `+`, then one or
/// more ASCII digits, with a value that fits.
pub open spec fn parsed_u16(s: Seq<char>) -> Option<u16> {
    let d = unsigned_digits(s);
    if d.len() > 0 && all_digits(d) && digits_value(d) <= 65535 {
        Some(digits_value(d) as u16)
    } else {
        None
    }
}

pub proof fn lemma_digits_grow(d: Seq<char>, i: int, j: int)
    requires
        0 <= i <= j <= d.len(),
        forall|k: int| 0 <= k < d.len() ==> is_digit(#[trigger] d[k]),
    ensures
        digits_value(d.take(i)) <= digits_value(d.take(j)),
    decreases j - i,
{
    if i < j {
        lemma_digits_grow(d, i, j - 1);
        assert(d.take(j).drop_last() == d.take(j - 1));
        assert(is_digit(d[j - 1]));
    }
}

/// A port setting: the given text, trimmed, when it is a valid `u16`; `default` when the
/// setting is absent, blank or not a valid port number.
pub open spec fn port_setting(raw: Option<Seq<char>>, default: u16) -> u16 {
    match raw {
        Some(r) => {
            let t = trim(r);
            if t.len() > 0 {
                match parsed_u16(t) {
                    Some(v) => v,
                    None => default,
                }
            } else {
                default
            }
        },
        None => default,
    }
}

fn parse_u16(s: &[char]) -> (r: Option<u16>)
    ensures
        r == parsed_u16(s@),
{
    let start: usize = if s.len() > 0 && s[0] == '+' { 1 } else { 0 };
    let ghost d = unsigned_digits(s@);
    assert(d == s@.skip(start as int));
    if start >= s.len() {
        return None;
    }
    let mut acc: u32 = 0;
    let mut i: usize = start;
    while i < s.len()
        invariant
            start <= i <= s.len(),
            d == s@.skip(start as int),
            d == unsigned_digits(s@),
            d.len() > 0,
            acc <= 65535,
            acc == digits_value(d.take(i - start)),
            forall|k: int| 0 <= k < i - start ==> is_digit(#[trigger] d[k]),
        decreases s.len() - i,
    {
        let c = s[i];
        if !('0' <= c && c <= '9') {
            assert(d[i - start] == c);
            assert(!is_digit(d[i - start]));
            assert(!all_digits(d));
            assert(d == unsigned_digits(s@));
            return None;
        }
        let v = (c as u32) - ('0' as u32);
        assert(d.take(i - start + 1).drop_last() == d.take(i - start));
        assert(d.take(i - start + 1).last() == c);
        if acc * 10 + v > 65535 {
            proof {
                let ghost n = i - start + 1;
                if all_digits(d) {
                    lemma_digits_grow(d, n, d.len() as int);
                    assert(d.take(d.len() as int) == d);
                    assert(digits_value(d) > 65535);
                }
                assert(d == unsigned_digits(s@));
            }
            return None;
        }
        acc = acc * 10 + v;
        i = i + 1;
    }
    assert(d.take(d.len() as int) == d);
    Some(acc as u16)
}

/// Reads a port setting (`.env` writes unset ports as empty values): blank or invalid values
/// fall back to `default`.
pub fn parse_port_override(raw: Option<&str>, default: u16) -> (r: u16)
    ensures
        r == port_setting(match raw { Some(x) => Some(x@), None => None }, default),
{
    match raw {
        Some(x) => {
            let t = chars_trim(chars_of(x).as_slice());
            if t.len() == 0 {
                return default;
            }
            match parse_u16(t.as_slice()) {
                Some(v) => v,
                None => default,
            }
        },
        None => default,
    }
}


/// subtle's `ConstantTimeEq::ct_eq` on byte slices, read as a `bool`: true exactly when both
/// slices have the same length and the same bytes (the comparison takes time independent of
/// the contents once the lengths agree).
#[verifier::external_body]
fn bytes_ct_eq(a: &[u8], b: &[u8]) -> (r: bool)
    ensures
        r == (a@ == b@),
{
    a.ct_eq(b).into()
}

/// Whether a request is authorized: a key is configured, and the `authorization` header is
/// `Bearer ` followed by exactly that key.
pub open spec fn authorized(expected: Seq<char>, header: Option<Seq<char>>) -> bool {
    expected.len() > 0 && match header {
        Some(h) => is_prefix("Bearer "@, h) && h.skip(7) == expected,
        None => false,
    }
}

/// Checks a request's `authorization` header against the configured key `expected`; with no
/// key configured every request is refused. The key is compared in constant time.
pub fn api_key_authorized(expected: &str, header: Option<&str>) -> (r: bool)
    ensures
        r == authorized(expected@, match header { Some(h) => Some(h@), None => None }),
{
    if expected.is_empty() {
        return false;
    }
    let h = match header {
        Some(h) => h,
        None => return false,
    };
    let hc = chars_of(h);
    let bearer = chars_of("Bearer ");
    proof { reveal_strlit("Bearer "); }
    if !chars_starts_with(hc.as_slice(), bearer.as_slice()) {
        return false;
    }
    let rest = string_of(crate::text::chars_skip(hc.as_slice(), 7).as_slice());
    let provided = rest.as_str().as_bytes();
    let wanted = expected.as_bytes();
    let same = provided.len() == wanted.len() && bytes_ct_eq(provided, wanted);
    proof {
        encode_utf8_decode_utf8(rest@);
        encode_utf8_decode_utf8(expected@);
        if h@.skip(7) == expected@ {
            assert(provided@ == wanted@);
        }
    }
    same
}


/// Consecutive notification timeouts after which a peer is taken for dead.
pub const PEER_TIMEOUT_THRESHOLD: u32 = 3;

/// How sending a notification to a peer ended.
#[derive(Clone, Copy, PartialEq, Eq, Debug)]
pub enum SendOutcome {
    Delivered,
    Failed,
    TimedOut,
}

/// The timeout count of each peer (peers without one have none).
pub struct PeerHealth {
    counts: HashMapWithView<u64, u32>,
}

/// The counts after an outcome for `peer`, and whether the peer is now dead: a delivery clears
/// its count; a failure kills it; a timeout counts, and kills it at the threshold. A dead
/// peer's count is dropped.
pub open spec fn after_outcome(m: Map<u64, u32>, peer: u64, outcome: SendOutcome) -> (Map<u64, u32>, bool) {
    match outcome {
        SendOutcome::Delivered => (m.remove(peer), false),
        SendOutcome::Failed => (m.remove(peer), true),
        SendOutcome::TimedOut => {
            let c = if m.contains_key(peer) { m[peer] + 1 } else { 1 };
            if c >= PEER_TIMEOUT_THRESHOLD { (m.remove(peer), true) } else { (m.insert(peer, c as u32), false) }
        },
    }
}

impl PeerHealth {
    /// The timeout counts.
    pub closed spec fn view(&self) -> Map<u64, u32> {
        self.counts@
    }

    /// Every count stays below the threshold (a peer that reaches it is dropped).
    pub closed spec fn wf(&self) -> bool {
        forall|p: u64| #[trigger] self.counts@.contains_key(p) ==> self.counts@[p] < PEER_TIMEOUT_THRESHOLD
    }

    /// No peer has timed out.
    pub fn new() -> (r: Self)
        ensures
            r.wf(),
            r.view() == Map::<u64, u32>::empty(),
    {
        PeerHealth { counts: HashMapWithView::new() }
    }

    /// The timeout count of `peer`.
    pub fn timeouts(&self, peer: u64) -> (r: u32)
        ensures
            r == if self.view().contains_key(peer) { self.view()[peer] } else { 0 },
    {
        match self.counts.get(&peer) {
            Some(c) => *c,
            None => 0,
        }
    }

    /// Records how sending to `peer` ended and says whether the peer is dead.
    pub fn record(&mut self, peer: u64, outcome: SendOutcome) -> (dead: bool)
        requires
            old(self).wf(),
        ensures
            final(self).wf(),
            (final(self).view(), dead) == after_outcome(old(self).view(), peer, outcome),
    {
        match outcome {
            SendOutcome::Delivered => {
                self.counts.remove(&peer);
                false
            },
            SendOutcome::Failed => {
                self.counts.remove(&peer);
                true
            },
            SendOutcome::TimedOut => {
                let c: u32 = match self.counts.get(&peer) {
                    Some(c) => *c + 1,
                    None => 1,
                };
                if c >= PEER_TIMEOUT_THRESHOLD {
                    self.counts.remove(&peer);
                    true
                } else {
                    self.counts.insert(peer, c);
                    false
                }
            },
        }
    }
}

/// A peer that times out the threshold number of times in a row is dead, not before; and a
/// delivery in between starts the count over.
pub proof fn lemma_peer_dies_after_threshold_timeouts(m: Map<u64, u32>, peer: u64)
    requires
        !m.contains_key(peer),
    ensures
        !after_outcome(m, peer, SendOutcome::TimedOut).1,
        !after_outcome(after_outcome(m, peer, SendOutcome::TimedOut).0, peer, SendOutcome::TimedOut).1,
        after_outcome(after_outcome(after_outcome(m, peer, SendOutcome::TimedOut).0, peer, SendOutcome::TimedOut).0, peer, SendOutcome::TimedOut).1,
        !after_outcome(after_outcome(m, peer, SendOutcome::TimedOut).0, peer, SendOutcome::Delivered).0.contains_key(peer),
{
}

/// How the UI ended a worktree close that a tool asked for.
#[derive(Debug)]
pub enum CloseWorktreeOutcome {
    Closed,
    /// The user cancelled the retry of the removal (not an error).
    Cancelled,
    /// A close of the same worktree was already running (not an error).
    Busy,
    Failed(String),
}

/// The close outcome for the UI's status: `ok`, `cancelled`, `busy`, anything else a failure
/// with the given error (or "unknown error").
pub fn close_worktree_outcome(status: &str, error: Option<String>) -> (r: CloseWorktreeOutcome)
    ensures
        status@ == "ok"@ ==> r is Closed,
        status@ == "cancelled"@ ==> r is Cancelled,
        status@ == "busy"@ ==> r is Busy,
        status@ != "ok"@ && status@ != "cancelled"@ && status@ != "busy"@ ==> (r matches CloseWorktreeOutcome::Failed(m)
            && m@ == match error { Some(e) => e@, None => "unknown error"@ }),
{
    proof {
        reveal_strlit("ok");
        reveal_strlit("cancelled");
        reveal_strlit("busy");
        assert("ok"@.len() == 2 && "cancelled"@.len() == 9 && "busy"@.len() == 4);
    }
    if str_eq(status, "ok") {
        CloseWorktreeOutcome::Closed
    } else if str_eq(status, "cancelled") {
        CloseWorktreeOutcome::Cancelled
    } else if str_eq(status, "busy") {
        CloseWorktreeOutcome::Busy
    } else {
        CloseWorktreeOutcome::Failed(match error {
            Some(e) => e,
            None => String::from_str("unknown error"),
        })
    }
}

/// How the UI ended a worktree import that a tool asked for.
#[derive(Debug)]
pub enum ImportWorktreeOutcome {
    /// Registered, with the new worktree's id.
    Imported(String),
    /// It was registered already (not an error).
    AlreadyRegistered,
    Failed(String),
}

/// The import outcome for the UI's status: `ok` with the worktree id (empty when missing),
/// `already`, anything else a failure with the given error (or "unknown error").
pub fn import_worktree_outcome(status: &str, worktree_id: Option<String>, error: Option<String>) -> (r: ImportWorktreeOutcome)
    ensures
        status@ == "ok"@ ==> (r matches ImportWorktreeOutcome::Imported(id)
            && id@ == match worktree_id { Some(w) => w@, None => Seq::<char>::empty() }),
        status@ == "already"@ ==> r is AlreadyRegistered,
        status@ != "ok"@ && status@ != "already"@ ==> (r matches ImportWorktreeOutcome::Failed(m)
            && m@ == match error { Some(e) => e@, None => "unknown error"@ }),
{
    proof {
        reveal_strlit("ok");
        reveal_strlit("already");
        assert("ok"@.len() == 2 && "already"@.len() == 7);
    }
    if str_eq(status, "ok") {
        ImportWorktreeOutcome::Imported(match worktree_id {
            Some(w) => w,
            None => String::new(),
        })
    } else if str_eq(status, "already") {
        ImportWorktreeOutcome::AlreadyRegistered
    } else {
        ImportWorktreeOutcome::Failed(match error {
            Some(e) => e,
            None => String::from_str("unknown error"),
        })
    }
}


/// A switch that is on unless set to exactly `false` (on when unset).
pub fn env_switch_on(value: Option<&str>) -> (r: bool)
    ensures
        r == match value { Some(v) => v@ != "false"@, None => true },
{
    match value {
        Some(v) => !str_eq(v, "false"),
        None => true,
    }
}

/// A flag that is set only by `true` or `1`.
pub fn env_flag_set(value: Option<&str>) -> (r: bool)
    ensures
        r == match value { Some(v) => v@ == "true"@ || v@ == "1"@, None => false },
{
    match value {
        Some(v) => str_eq(v, "true") || str_eq(v, "1"),
        None => false,
    }
}

/// The port written to the server info file: the new port, unless overwriting is off and the
/// existing file names one (its number taken as a `u16`, as `as u16` truncates).
pub fn effective_server_port(overwrite_port: bool, existing: Option<u64>, port: u16) -> (r: u16)
    ensures
        r == if !overwrite_port && existing is Some { (existing->0 % 65536) as u16 } else { port },
{
    if !overwrite_port {
        match existing {
            Some(n) => (n % 65536) as u16,
            None => port,
        }
    } else {
        port
    }
}

/// Whether the legacy port file is written: when overwriting is on, or no file exists yet.
pub fn write_port_file(overwrite_port: bool, file_exists: bool) -> (r: bool)
    ensures
        r == (overwrite_port || !file_exists),
{
    overwrite_port || !file_exists
}

} // verus!
