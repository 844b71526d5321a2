//! Native notifications: which ones are shown, with what title and body, and
//! the de-duplication of identical notifications within a short window.

use vstd::prelude::*;

use crate::text::{is_blank, trim_ws};

verus! {

/// The arguments of a `notify` call.
#[derive(Debug, PartialEq)]
pub struct NotifyArgs {
    pub title: Option<String>,
    pub body: Option<String>,
    pub tag: Option<String>,
    pub session_id: Option<String>,
    pub kind: Option<String>,
    pub require_hidden: Option<bool>,
}

/// What `notify` reports.
#[derive(Debug, PartialEq)]
pub struct NotifyOutcome {
    pub shown: bool,
    pub reason: Option<String>,
}

/// Identical notifications within this many milliseconds are shown once.
pub const NATIVE_NOTIFICATION_DEDUPE_TTL_MS: u64 = 5000;

/// The de-duplication window in nanoseconds.
pub open spec fn dedupe_ttl_ns() -> int {
    NATIVE_NOTIFICATION_DEDUPE_TTL_MS * 1_000_000
}

pub open spec fn text_or_empty(o: Option<String>) -> Seq<char> {
    match o {
        Some(s) => s@,
        None => Seq::empty(),
    }
}

/// The de-duplication key: a non-blank tag, else
/// `session|kind|title|body` (missing parts empty).
pub open spec fn dedupe_key(args: NotifyArgs) -> Seq<char> {
    match args.tag {
        Some(t) if trim_ws(t@).len() != 0 => t@,
        _ => text_or_empty(args.session_id) + "|"@ + text_or_empty(args.kind) + "|"@
            + text_or_empty(args.title) + "|"@ + text_or_empty(args.body),
    }
}

fn owned_or_empty(o: &Option<String>) -> (r: String)
    ensures
        r@ == text_or_empty(*o),
{
    match o {
        Some(s) => s.clone(),
        None => String::new(),
    }
}

/// Computes `dedupe_key(args)`.
pub fn notification_key(args: &NotifyArgs) -> (r: String)
    ensures
        r@ == dedupe_key(*args),
{
    match &args.tag {
        Some(t) => {
            if !is_blank(t.as_str()) {
                return t.clone();
            }
        },
        None => {},
    }
    owned_or_empty(&args.session_id).concat("|").concat(owned_or_empty(&args.kind).as_str()).concat(
        "|",
    ).concat(owned_or_empty(&args.title).as_str()).concat("|").concat(
        owned_or_empty(&args.body).as_str(),
    )
}

// ───────────────────────── de-duplication ─────────────────────────

/// A key and the time (in nanoseconds on a monotonic clock) it was last shown.
#[derive(Debug, PartialEq)]
pub struct DedupeClaim {
    pub key: String,
    pub at: u128,
}

/// The notifications shown recently, at most one claim per key.
#[derive(Debug, PartialEq)]
pub struct NotificationDedupe {
    claims: Vec<DedupeClaim>,
}

/// `now - at`, or 0 when `at` is later (`Instant::duration_since` saturates).
pub open spec fn age(now: u128, at: u128) -> int {
    if now >= at {
        now - at
    } else {
        0
    }
}

/// A claim made at `at` still suppresses a notification at `now`.
pub open spec fn fresh(now: u128, at: u128) -> bool {
    age(now, at) < dedupe_ttl_ns()
}

pub open spec fn unique_keys(cs: Seq<DedupeClaim>) -> bool {
    forall|i: int, j: int| 0 <= i < cs.len() && 0 <= j < cs.len() && i != j ==> (#[trigger] cs[i]).key@
        != (#[trigger] cs[j]).key@
}

/// The claims as a map from key to the time it was last shown.
pub open spec fn claims_map(cs: Seq<DedupeClaim>) -> Map<Seq<char>, u128>
    decreases cs.len(),
{
    if cs.len() == 0 {
        Map::empty()
    } else {
        claims_map(cs.drop_last()).insert(cs.last().key@, cs.last().at)
    }
}

/// The claims of `m` that are still fresh at `now`.
pub open spec fn fresh_part(m: Map<Seq<char>, u128>, now: u128) -> Map<Seq<char>, u128> {
    Map::new(|k: Seq<char>| m.contains_key(k) && fresh(now, m[k]), |k: Seq<char>| m[k])
}

/// One de-duplication step on the ledger `old`, for `key` at `now`, answered
/// `shown` and leaving `new`: an empty key is always shown and touches nothing;
/// otherwise stale claims are dropped, a key with a fresh claim is not shown,
/// and a key without one is shown and claimed at `now`.
pub open spec fn dedupe_step(
    old: Map<Seq<char>, u128>,
    key: Seq<char>,
    now: u128,
    shown: bool,
    new: Map<Seq<char>, u128>,
) -> bool {
    if key.len() == 0 {
        shown && new == old
    } else {
        let kept = fresh_part(old, now);
        if kept.contains_key(key) {
            !shown && new == kept
        } else {
            shown && new == kept.insert(key, now)
        }
    }
}

impl View for NotificationDedupe {
    type V = Map<Seq<char>, u128>;

    /// Each key shown recently, with the time it was last shown.
    closed spec fn view(&self) -> Map<Seq<char>, u128> {
        claims_map(self.claims@)
    }
}

/// The claims of `cs` that are fresh at `now`, in order.
pub open spec fn fresh_claims(cs: Seq<DedupeClaim>, now: u128) -> Seq<DedupeClaim>
    decreases cs.len(),
{
    if cs.len() == 0 {
        cs
    } else if fresh(now, cs.last().at) {
        fresh_claims(cs.drop_last(), now).push(cs.last())
    } else {
        fresh_claims(cs.drop_last(), now)
    }
}

proof fn lemma_claims_map_keys(cs: Seq<DedupeClaim>, k: Seq<char>)
    ensures
        claims_map(cs).contains_key(k) <==> exists|i: int| 0 <= i < cs.len() && (#[trigger] cs[i]).key@
            == k,
    decreases cs.len(),
{
    if cs.len() > 0 {
        let init = cs.drop_last();
        lemma_claims_map_keys(init, k);
        if exists|i: int| 0 <= i < init.len() && (#[trigger] init[i]).key@ == k {
            let i = choose|i: int| 0 <= i < init.len() && (#[trigger] init[i]).key@ == k;
            assert(cs[i] == init[i]);
        }
        if exists|i: int| 0 <= i < cs.len() && (#[trigger] cs[i]).key@ == k {
            let i = choose|i: int| 0 <= i < cs.len() && (#[trigger] cs[i]).key@ == k;
            if i < cs.len() - 1 {
                assert(init[i] == cs[i]);
            }
        }
    }
}

proof fn lemma_claims_map_value(cs: Seq<DedupeClaim>, i: int)
    requires
        unique_keys(cs),
        0 <= i < cs.len(),
    ensures
        claims_map(cs).contains_key(cs[i].key@),
        claims_map(cs)[cs[i].key@] == cs[i].at,
    decreases cs.len(),
{
    let init = cs.drop_last();
    if i < cs.len() - 1 {
        assert(unique_keys(init)) by {
            assert forall|a: int, b: int|
                0 <= a < init.len() && 0 <= b < init.len() && a != b implies (#[trigger] init[a]).key@
                != (#[trigger] init[b]).key@ by {
                assert(init[a] == cs[a] && init[b] == cs[b]);
            }
        }
        lemma_claims_map_value(init, i);
        assert(init[i] == cs[i]);
        assert(cs[i].key@ != cs.last().key@);
    }
}

proof fn lemma_fresh_claims_subset(cs: Seq<DedupeClaim>, now: u128, j: int)
    requires
        0 <= j < fresh_claims(cs, now).len(),
    ensures
        exists|i: int| 0 <= i < cs.len() && cs[i] == fresh_claims(cs, now)[j],
    decreases cs.len(),
{
    let init = cs.drop_last();
    let f = fresh_claims(cs, now);
    if fresh(now, cs.last().at) && j == f.len() - 1 {
        assert(cs[cs.len() - 1] == f[j]);
    } else {
        assert(fresh_claims(init, now)[j] == f[j]);
        lemma_fresh_claims_subset(init, now, j);
        let i = choose|i: int| 0 <= i < init.len() && init[i] == fresh_claims(init, now)[j];
        assert(cs[i] == init[i]);
    }
}

proof fn lemma_fresh_claims(cs: Seq<DedupeClaim>, now: u128)
    requires
        unique_keys(cs),
    ensures
        unique_keys(fresh_claims(cs, now)),
        claims_map(fresh_claims(cs, now)) == fresh_part(claims_map(cs), now),
    decreases cs.len(),
{
    if cs.len() == 0 {
        assert(fresh_part(claims_map(cs), now) =~= Map::<Seq<char>, u128>::empty());
    } else {
        let init = cs.drop_last();
        let last = cs.last();
        assert(unique_keys(init)) by {
            assert forall|a: int, b: int|
                0 <= a < init.len() && 0 <= b < init.len() && a != b implies (#[trigger] init[a]).key@
                != (#[trigger] init[b]).key@ by {
                assert(init[a] == cs[a] && init[b] == cs[b]);
            }
        }
        lemma_fresh_claims(init, now);
        lemma_claims_map_keys(init, last.key@);
        assert(!claims_map(init).contains_key(last.key@)) by {
            if claims_map(init).contains_key(last.key@) {
                let i = choose|i: int| 0 <= i < init.len() && (#[trigger] init[i]).key@ == last.key@;
                assert(cs[i] == init[i]);
                assert(cs[cs.len() - 1].key@ == last.key@);
            }
        }
        let fi = fresh_claims(init, now);
        if fresh(now, last.at) {
            let f = fi.push(last);
            lemma_claims_map_keys(fi, last.key@);
            assert(!exists|i: int| 0 <= i < fi.len() && (#[trigger] fi[i]).key@ == last.key@) by {
                if exists|i: int| 0 <= i < fi.len() && (#[trigger] fi[i]).key@ == last.key@ {
                    let i = choose|i: int| 0 <= i < fi.len() && (#[trigger] fi[i]).key@ == last.key@;
                    lemma_fresh_claims_subset(init, now, i);
                    let i2 = choose|i2: int| 0 <= i2 < init.len() && init[i2] == fi[i];
                    assert(cs[i2] == init[i2]);
                    assert(cs[cs.len() - 1].key@ == last.key@);
                }
            }
            assert(unique_keys(f)) by {
                assert forall|a: int, b: int|
                    0 <= a < f.len() && 0 <= b < f.len() && a != b implies (#[trigger] f[a]).key@
                    != (#[trigger] f[b]).key@ by {
                    if a < fi.len() && b < fi.len() {
                        assert(f[a] == fi[a] && f[b] == fi[b]);
                    } else if a < fi.len() {
                        assert(f[a] == fi[a]);
                    } else if b < fi.len() {
                        assert(f[b] == fi[b]);
                    }
                }
            }
            assert(claims_map(f) =~= fresh_part(claims_map(cs), now)) by {
                assert(f.drop_last() =~= fi);
            }
        } else {
            assert(claims_map(fi) =~= fresh_part(claims_map(cs), now));
        }
    }
}

impl NotificationDedupe {
    /// At most one claim per key.
    #[verifier::type_invariant]
    spec fn well_formed(self) -> bool {
        unique_keys(self.claims@)
    }

    /// An empty ledger.
    pub fn new() -> (r: NotificationDedupe)
        ensures
            r@ == Map::<Seq<char>, u128>::empty(),
    {
        NotificationDedupe { claims: Vec::new() }
    }

    /// Whether `key` holds a claim.
    pub fn is_claimed(&self, key: &str) -> (r: bool)
        ensures
            r == self@.contains_key(key@),
    {
        proof {
            lemma_claims_map_keys(self.claims@, key@);
        }
        let n = self.claims.len();
        let mut i: usize = 0;
        while i < n
            invariant
                n == self.claims@.len(),
                i <= n,
                forall|j: int| 0 <= j < i ==> (#[trigger] self.claims@[j]).key@ != key@,
            decreases n - i,
        {
            if crate::text::same_text(self.claims[i].key.as_str(), key) {
                proof {
                    lemma_claims_map_keys(self.claims@, key@);
                    assert(self.claims@[i as int].key@ == key@);
                }
                return true;
            }
            i = i + 1;
        }
        false
    }

    /// Whether a notification with `key` may be shown at `now` (nanoseconds on a
    /// monotonic clock), recording it when it may (see `dedupe_step`).
    #[verifier::loop_isolation(false)]
    pub fn dedupe_pass(&mut self, key: &str, now: u128) -> (shown: bool)
        ensures
            dedupe_step(old(self)@, key@, now, shown, final(self)@),
    {
        proof {
            use_type_invariant(&*self);
        }
        if key.unicode_len() == 0 {
            return true;
        }
        let ttl: u128 = (NATIVE_NOTIFICATION_DEDUPE_TTL_MS as u128) * 1_000_000;
        let ghost cs = self.claims@;
        let n = self.claims.len();
        let mut kept: Vec<DedupeClaim> = Vec::new();
        let mut i: usize = 0;
        while i < n
            invariant
                n == self.claims@.len(),
                cs == self.claims@,
                ttl == dedupe_ttl_ns(),
                i <= n,
                kept@ == fresh_claims(cs.subrange(0, i as int), now),
            decreases n - i,
        {
            let c = &self.claims[i];
            let a = if now >= c.at {
                now - c.at
            } else {
                0
            };
            proof {
                assert(cs.subrange(0, i + 1).drop_last() =~= cs.subrange(0, i as int));
                assert(cs.subrange(0, i + 1).last() == cs[i as int]);
            }
            if a < ttl {
                kept.push(DedupeClaim { key: c.key.clone(), at: c.at });
            }
            i = i + 1;
        }
        proof {
            assert(cs.subrange(0, n as int) =~= cs);
            lemma_fresh_claims(cs, now);
        }
        let m = kept.len();
        let mut j: usize = 0;
        while j < m
            invariant
                m == kept@.len(),
                j <= m,
                forall|x: int| 0 <= x < j ==> (#[trigger] kept@[x]).key@ != key@,
            decreases m - j,
        {
            if crate::text::same_text(kept[j].key.as_str(), key) {
                proof {
                    lemma_claims_map_keys(kept@, key@);
                }
                self.claims = kept;
                return false;
            }
            j = j + 1;
        }
        proof {
            lemma_claims_map_keys(kept@, key@);
        }
        let ghost before = kept@;
        kept.push(DedupeClaim { key: key.to_owned(), at: now });
        proof {
            assert(kept@.drop_last() =~= before);
            assert(unique_keys(kept@)) by {
                assert forall|a: int, b: int|
                    0 <= a < kept@.len() && 0 <= b < kept@.len() && a != b implies (
                    #[trigger] kept@[a]).key@ != (#[trigger] kept@[b]).key@ by {
                    if a < before.len() && b < before.len() {
                        assert(kept@[a] == before[a] && kept@[b] == before[b]);
                    } else if a < before.len() {
                        assert(kept@[a] == before[a]);
                    } else if b < before.len() {
                        assert(kept@[b] == before[b]);
                    }
                }
            }
        }
        self.claims = kept;
        true
    }
}

/// Within the de-duplication window after a notification with a non-empty key
/// was shown, the same key is not shown again.
pub proof fn law_dedupe_suppresses_repeat(
    m0: Map<Seq<char>, u128>,
    key: Seq<char>,
    t1: u128,
    m1: Map<Seq<char>, u128>,
    t2: u128,
    shown2: bool,
    m2: Map<Seq<char>, u128>,
)
    requires
        key.len() > 0,
        dedupe_step(m0, key, t1, true, m1),
        dedupe_step(m1, key, t2, shown2, m2),
        t1 <= t2,
        t2 - t1 < dedupe_ttl_ns(),
    ensures
        !shown2,
{
    assert(m1.contains_key(key) && m1[key] == t1);
    assert(fresh_part(m1, t2).contains_key(key));
}

/// Once the window since a key's last showing has passed, the key is shown again.
pub proof fn law_dedupe_expires(
    m1: Map<Seq<char>, u128>,
    key: Seq<char>,
    t2: u128,
    shown2: bool,
    m2: Map<Seq<char>, u128>,
)
    requires
        key.len() > 0,
        m1.contains_key(key),
        m1[key] <= t2,
        t2 - m1[key] >= dedupe_ttl_ns(),
        dedupe_step(m1, key, t2, shown2, m2),
    ensures
        shown2,
        m2.contains_key(key) && m2[key] == t2,
{
}

// ───────────────────────── notify ─────────────────────────

/// What `notify` does with a request.
#[derive(Debug, PartialEq)]
pub enum NotifyDecision {
    /// Nothing is shown; the outcome says why.
    Skip(NotifyOutcome),
    /// Show a notification with this title and body.
    Show { title: String, body: String },
}

/// Whether any window of the app has focus. Focus is not tracked, so no window
/// counts as focused and notifications are never held back for being in view.
pub fn is_any_window_focused() -> (r: bool)
    ensures
        !r,
{
    false
}

/// The title shown: a non-blank title, else `OpenChamber`.
pub open spec fn shown_title(title: Option<String>) -> Seq<char> {
    match title {
        Some(t) if trim_ws(t@).len() != 0 => t@,
        _ => "OpenChamber"@,
    }
}

/// `r` skips the notification with the reason `reason`.
pub open spec fn skipped_with(r: NotifyDecision, reason: Seq<char>) -> bool {
    match r {
        NotifyDecision::Skip(o) => !o.shown && match o.reason {
            Some(m) => m@ == reason,
            None => false,
        },
        _ => false,
    }
}

/// `r` shows a notification with this title and body.
pub open spec fn shows(r: NotifyDecision, title: Seq<char>, body: Seq<char>) -> bool {
    match r {
        NotifyDecision::Show { title: t, body: b } => t@ == title && b@ == body,
        _ => false,
    }
}

/// Decides a `notify` request at `now`. A request marked `require_hidden` is
/// held back only while a window is focused; no window counts as focused
/// (`is_any_window_focused`), so, erring on the side of showing, every request
/// goes on to de-duplication: a repeat within the window is dropped, anything
/// else is shown.
pub fn notify(args: NotifyArgs, ledger: &mut NotificationDedupe, now: u128) -> (r: NotifyDecision)
    ensures
        exists|shown: bool|
            {
                &&& dedupe_step(old(ledger)@, dedupe_key(args), now, shown, final(ledger)@)
                &&& if shown {
                    shows(r, shown_title(args.title), text_or_empty(args.body))
                } else {
                    skipped_with(r, "deduped"@)
                }
            },
{
    let key = notification_key(&args);
    let shown = ledger.dedupe_pass(key.as_str(), now);
    if !shown {
        return NotifyDecision::Skip(
            NotifyOutcome { shown: false, reason: Some("deduped".to_owned()) },
        );
    }
    let title = match args.title {
        Some(t) => if is_blank(t.as_str()) {
            "OpenChamber".to_owned()
        } else {
            t
        },
        None => "OpenChamber".to_owned(),
    };
    let body = match args.body {
        Some(b) => b,
        None => String::new(),
    };
    NotifyDecision::Show { title, body }
}

/// The outcome reported once a notification was shown.
pub fn shown_outcome() -> (r: NotifyOutcome)
    ensures
        r.shown && r.reason is None,
{
    NotifyOutcome { shown: true, reason: None }
}

/// A claim made at `t1` holds through every call at a time from `t1` to
/// just before `t1` + 5 s, whatever its key: the claim stays in the ledger, and
/// a call with the claimed key is not shown.
pub proof fn law_dedupe_claim_holds_for_five_seconds(
    m: Map<Seq<char>, u128>,
    key: Seq<char>,
    t1: u128,
    call_key: Seq<char>,
    now: u128,
    shown: bool,
    m2: Map<Seq<char>, u128>,
)
    requires
        key.len() > 0,
        m.contains_key(key),
        m[key] == t1,
        t1 <= now,
        now < t1 + 5_000_000_000,
        dedupe_step(m, call_key, now, shown, m2),
    ensures
        m2.contains_key(key),
        m2[key] == t1,
        call_key == key ==> !shown,
{
}

/// A call that is not shown drops no claim made less than 5 s before it.
pub proof fn law_dedupe_suppressed_call_keeps_fresh_claims(
    m: Map<Seq<char>, u128>,
    call_key: Seq<char>,
    now: u128,
    m2: Map<Seq<char>, u128>,
)
    requires
        dedupe_step(m, call_key, now, false, m2),
    ensures
        forall|k: Seq<char>|
            m.contains_key(k) && m[k] <= now && now < m[k] + 5_000_000_000 ==> #[trigger] m2.contains_key(k)
                && m2[k] == m[k],
{
}

/// A run of de-duplication calls on one ledger: call `i` with key `keys[i]`
/// at `times[i]` turns `ledgers[i]` into `ledgers[i + 1]` and answers
/// `shown[i]`; the times never go back.
pub open spec fn dedupe_run(
    ledgers: Seq<Map<Seq<char>, u128>>,
    keys: Seq<Seq<char>>,
    times: Seq<u128>,
    shown: Seq<bool>,
) -> bool {
    &&& ledgers.len() == keys.len() + 1
    &&& times.len() == keys.len()
    &&& shown.len() == keys.len()
    &&& forall|i: int|
        0 <= i < keys.len() ==> dedupe_step(
            #[trigger] ledgers[i],
            keys[i],
            times[i],
            shown[i],
            ledgers[i + 1],
        )
    &&& forall|i: int, j: int| 0 <= i <= j < times.len() ==> times[i] <= times[j]
}

proof fn lemma_claim_persists(
    ledgers: Seq<Map<Seq<char>, u128>>,
    keys: Seq<Seq<char>>,
    times: Seq<u128>,
    shown: Seq<bool>,
    i: int,
    k: int,
    j: int,
)
    requires
        dedupe_run(ledgers, keys, times, shown),
        0 <= i < k <= j < keys.len(),
        keys[i].len() > 0,
        shown[i],
        times[j] < times[i] + 5_000_000_000,
    ensures
        ledgers[k].contains_key(keys[i]),
        ledgers[k][keys[i]] == times[i],
    decreases k - i,
{
    let key = keys[i];
    assert(dedupe_step(ledgers[i], keys[i], times[i], shown[i], ledgers[i + 1]));
    if k > i + 1 {
        lemma_claim_persists(ledgers, keys, times, shown, i, k - 1, j);
        assert(dedupe_step(ledgers[k - 1], keys[k - 1], times[k - 1], shown[k - 1], ledgers[k]));
        assert(times[i] <= times[k - 1] && times[k - 1] <= times[j]);
        law_dedupe_claim_holds_for_five_seconds(
            ledgers[k - 1],
            key,
            times[i],
            keys[k - 1],
            times[k - 1],
            shown[k - 1],
            ledgers[k],
        );
    }
}

/// Once a notification with a non-empty key is shown, every later call with the
/// same key less than 5 s after it is suppressed, whatever calls came in
/// between.
pub proof fn law_dedupe_repeats_within_five_seconds_are_suppressed(
    ledgers: Seq<Map<Seq<char>, u128>>,
    keys: Seq<Seq<char>>,
    times: Seq<u128>,
    shown: Seq<bool>,
    i: int,
    j: int,
)
    requires
        dedupe_run(ledgers, keys, times, shown),
        0 <= i < j < keys.len(),
        keys[i].len() > 0,
        shown[i],
        keys[j] == keys[i],
        times[j] < times[i] + 5_000_000_000,
    ensures
        !shown[j],
{
    lemma_claim_persists(ledgers, keys, times, shown, i, j, j);
    assert(dedupe_step(ledgers[j], keys[j], times[j], shown[j], ledgers[j + 1]));
    assert(times[i] <= times[j]);
    law_dedupe_claim_holds_for_five_seconds(
        ledgers[j],
        keys[i],
        times[i],
        keys[j],
        times[j],
        shown[j],
        ledgers[j + 1],
    );
}

/// What one call does, for every ledger: a call with an empty key is shown and
/// changes nothing; otherwise it is shown exactly when its key holds no claim
/// made less than 5 s before (a claim from a later time counts as just made),
/// a shown call claims its key at the call's time, and every other key keeps
/// its claim exactly when that claim was made less than 5 s before.
pub proof fn law_dedupe_call(
    m: Map<Seq<char>, u128>,
    key: Seq<char>,
    now: u128,
    shown: bool,
    m2: Map<Seq<char>, u128>,
)
    requires
        dedupe_step(m, key, now, shown, m2),
    ensures
        key.len() == 0 ==> shown && m2 == m,
        key.len() > 0 ==> (shown <==> !(m.contains_key(key) && now < m[key] + 5_000_000_000)),
        key.len() > 0 && shown ==> m2.contains_key(key) && m2[key] == now,
        key.len() > 0 ==> forall|k: Seq<char>|
            k != key ==> (#[trigger] m2.contains_key(k) <==> (m.contains_key(k) && now < m[k]
                + 5_000_000_000)),
        key.len() > 0 ==> forall|k: Seq<char>|
            k != key && #[trigger] m2.contains_key(k) ==> m2[k] == m[k],
{
}

} // verus!
