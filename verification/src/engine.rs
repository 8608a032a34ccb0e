//! The policy engine: list-order matching of keyword hits, threshold checks,
//! and per-policy debounce and renewal of the active window.
use vstd::prelude::*;
use crate::decision::VolumeDecision;
use crate::ieee::{binary64_le, binary64_less_eq};
use crate::policy::{display_of, keyword_display, Policy, PolicyError, PolicySet};
use crate::text::str_equal;

verus! {

/// Minimum interval between two distinct decisions for the same policy.
/// Hits closer than this are considered KWS jitter and are suppressed.
pub const DEBOUNCE_MS: i64 = 200;

/// When a policy last produced a decision.
struct LastHit {
    name: String,
    at_ms: i64,
}

/// When each policy name last produced a decision: one entry per name, and
/// the map the entries stand for.
struct HitRecord {
    entries: Vec<LastHit>,
    hits: Ghost<Map<Seq<char>, i64>>,
}

/// Policy engine implementation.
pub struct PolicyEngine {
    policies: Vec<Policy>,
    /// Last timestamp (ms) each policy name produced a decision.
    last_hit_ms: HitRecord,
}

/// Whether some keyword spec of `p` displays as `keyword`.
pub open spec fn names_keyword(p: Policy, keyword: Seq<char>) -> bool {
    exists|k: int|
        0 <= k < p.match_.keywords@.len() && display_of(#[trigger] p.match_.keywords@[k]@) == keyword
}

/// Whether policy `p` takes a hit of `keyword` with score `confidence`
/// (a binary64 pattern): it lists the keyword and the score is at least its
/// threshold (so a NaN score or threshold never passes).
pub open spec fn policy_applies(p: Policy, keyword: Seq<char>, confidence: u64) -> bool {
    names_keyword(p, keyword) && binary64_le(p.match_.threshold_bits, confidence)
}

/// The first policy from index `i` on that takes the hit.
pub open spec fn first_applicable_from(
    ps: Seq<Policy>,
    keyword: Seq<char>,
    confidence: u64,
    i: int,
) -> Option<int>
    decreases ps.len() - i,
{
    if i < 0 || i >= ps.len() {
        None
    } else if policy_applies(ps[i], keyword, confidence) {
        Some(i)
    } else {
        first_applicable_from(ps, keyword, confidence, i + 1)
    }
}

/// The first policy, in list order, that takes the hit.
pub open spec fn first_applicable(ps: Seq<Policy>, keyword: Seq<char>, confidence: u64) -> Option<
    int,
> {
    first_applicable_from(ps, keyword, confidence, 0)
}

/// What a taken hit at `ts` decides for policy `p`, given when each policy
/// name last decided: a new window when there was none or it has expired, a
/// suppressed hit within the debounce interval, and a renewal otherwise.
pub open spec fn window_decision(p: Policy, last: Map<Seq<char>, i64>, ts: i64) -> VolumeDecision {
    let name = p.name@;
    if !last.contains_key(name) || ts - last[name] > p.action.duration_seconds * 1000 {
        VolumeDecision::SetVolume {
            volume: p.action.volume,
            duration_seconds: p.action.duration_seconds,
        }
    } else if ts - last[name] < DEBOUNCE_MS {
        VolumeDecision::Default
    } else {
        VolumeDecision::Renew
    }
}

/// The decision for a hit and the new record of last decisions.
pub open spec fn evaluate_result(
    ps: Seq<Policy>,
    last: Map<Seq<char>, i64>,
    keyword: Seq<char>,
    confidence: u64,
    ts: i64,
) -> (VolumeDecision, Map<Seq<char>, i64>) {
    match first_applicable(ps, keyword, confidence) {
        None => (VolumeDecision::Default, last),
        Some(i) => {
            let d = window_decision(ps[i], last, ts);
            if d is Default {
                (d, last)
            } else {
                (d, last.insert(ps[i].name@, ts))
            }
        },
    }
}

/// `first_applicable_from` at `i` is its value at `i + 1` when policy `i`
/// does not take the hit.
proof fn lemma_skip_policy(ps: Seq<Policy>, keyword: Seq<char>, confidence: u64, i: int)
    requires
        0 <= i < ps.len(),
        !policy_applies(ps[i], keyword, confidence),
    ensures
        first_applicable_from(ps, keyword, confidence, i) == first_applicable_from(
            ps,
            keyword,
            confidence,
            i + 1,
        ),
{
}

/// Whether some keyword spec in `keywords` displays as `keyword`.
fn lists_keyword(keywords: &Vec<String>, keyword: &str) -> (r: bool)
    ensures
        r == exists|k: int| 0 <= k < keywords@.len() && display_of(#[trigger] keywords@[k]@) == keyword@,
{
    let mut k: usize = 0;
    while k < keywords.len()
        invariant
            k <= keywords@.len(),
            forall|j: int| 0 <= j < k ==> display_of(#[trigger] keywords@[j]@) != keyword@,
        decreases keywords@.len() - k,
    {
        if str_equal(keyword_display(keywords[k].as_str()), keyword) {
            return true;
        }
        k = k + 1;
    }
    false
}

impl HitRecord {
    /// One entry per name, agreeing with the map.
    spec fn wf(&self) -> bool {
        &&& forall|i: int, j: int|
            0 <= i < self.entries@.len() && 0 <= j < self.entries@.len() && i != j
                ==> self.entries@[i].name@ != self.entries@[j].name@
        &&& forall|i: int|
            0 <= i < self.entries@.len() ==> {
                &&& self.hits@.contains_key(#[trigger] self.entries@[i].name@)
                &&& self.hits@[self.entries@[i].name@] == self.entries@[i].at_ms
            }
        &&& forall|k: Seq<char>|
            #[trigger] self.hits@.contains_key(k) ==> exists|i: int|
                0 <= i < self.entries@.len() && self.entries@[i].name@ == k
    }

    fn new() -> (r: Self)
        ensures
            r.wf(),
            r.hits@ == Map::<Seq<char>, i64>::empty(),
    {
        HitRecord { entries: Vec::new(), hits: Ghost(Map::empty()) }
    }

    /// When policy `name` last produced a decision, if ever.
    fn last_hit(&self, name: &str) -> (r: Option<i64>)
        requires
            self.wf(),
        ensures
            r == if self.hits@.contains_key(name@) {
                Some(self.hits@[name@])
            } else {
                None::<i64>
            },
    {
        let mut i: usize = 0;
        while i < self.entries.len()
            invariant
                self.wf(),
                i <= self.entries@.len(),
                forall|j: int| 0 <= j < i ==> self.entries@[j].name@ != name@,
            decreases self.entries@.len() - i,
        {
            if str_equal(self.entries[i].name.as_str(), name) {
                return Some(self.entries[i].at_ms);
            }
            i = i + 1;
        }
        proof {
            if self.hits@.contains_key(name@) {
                let j = choose|j: int| 0 <= j < self.entries@.len() && self.entries@[j].name@ == name@;
                assert(self.entries@[j].name@ == name@);
            }
        }
        None
    }

    /// Records that policy `name` decided at `ts`.
    fn record_hit(&mut self, name: String, ts: i64)
        requires
            old(self).wf(),
        ensures
            final(self).wf(),
            final(self).hits@ == old(self).hits@.insert(name@, ts),
    {
        let ghost key = name@;
        let mut i: usize = 0;
        while i < self.entries.len()
            invariant
                self.wf(),
                key == name@,
                self.hits@ == old(self).hits@,
                i <= self.entries@.len(),
                forall|j: int| 0 <= j < i ==> self.entries@[j].name@ != key,
            decreases self.entries@.len() - i,
        {
            if str_equal(self.entries[i].name.as_str(), name.as_str()) {
                let ghost before = self.entries@;
                self.entries.set(i, LastHit { name, at_ms: ts });
                self.hits = Ghost(self.hits@.insert(key, ts));
                proof {
                    assert forall|k: Seq<char>| #[trigger] self.hits@.contains_key(k) implies exists|
                        j: int,
                    | 0 <= j < self.entries@.len() && self.entries@[j].name@ == k by {
                        if k != key {
                            let j = choose|j: int| 0 <= j < before.len() && before[j].name@ == k;
                            assert(self.entries@[j].name@ == k);
                        } else {
                            assert(self.entries@[i as int].name@ == k);
                        }
                    }
                    assert(self.hits@ =~= old(self).hits@.insert(key, ts));
                }
                return;
            }
            i = i + 1;
        }
        let ghost before = self.entries@;
        self.entries.push(LastHit { name, at_ms: ts });
        self.hits = Ghost(self.hits@.insert(key, ts));
        proof {
            assert forall|k: Seq<char>| #[trigger] self.hits@.contains_key(k) implies exists|j: int|
                0 <= j < self.entries@.len() && self.entries@[j].name@ == k by {
                if k != key {
                    let j = choose|j: int| 0 <= j < before.len() && before[j].name@ == k;
                    assert(self.entries@[j].name@ == k);
                } else {
                    assert(self.entries@[before.len() as int].name@ == k);
                }
            }
        }
    }
}

impl PolicyEngine {
    /// The record of last decisions holds one entry per name.
    #[verifier::type_invariant]
    spec fn record_is_consistent(self) -> bool {
        self.last_hit_ms.wf()
    }

    /// The loaded policies, in order.
    pub closed spec fn policy_list(&self) -> Seq<Policy> {
        self.policies@
    }

    /// For each policy name, when it last produced a decision.
    pub closed spec fn last_hits(&self) -> Map<Seq<char>, i64> {
        self.last_hit_ms.hits@
    }

    /// Creates an engine over `policies` with no decision recorded yet.
    pub fn new(policies: Vec<Policy>) -> (r: Self)
        ensures
            r.policy_list() == policies@,
            r.last_hits() == Map::<Seq<char>, i64>::empty(),
    {
        PolicyEngine { policies, last_hit_ms: HitRecord::new() }
    }

    /// Validates a policy set and creates an engine over its policies.
    pub fn from_policy_set(set: PolicySet) -> (r: Result<Self, PolicyError>)
        ensures
            match r {
                Ok(e) => {
                    &&& set.validate_spec() is Ok
                    &&& e.policy_list() == set.policies@
                    &&& e.last_hits() == Map::<Seq<char>, i64>::empty()
                },
                Err(err) => set.validate_spec() == Err::<(), PolicyError>(err),
            },
    {
        match set.validate() {
            Ok(()) => Ok(Self::new(set.policies)),
            Err(e) => Err(e),
        }
    }

    /// Return the loaded policies.
    pub fn policies(&self) -> (r: &[Policy])
        ensures
            r@ == self.policy_list(),
    {
        self.policies.as_slice()
    }

    /// Records that policy `name` decided at `ts`.
    fn record_hit(&mut self, name: String, ts: i64)
        ensures
            final(self).policy_list() == old(self).policy_list(),
            final(self).last_hits() == old(self).last_hits().insert(name@, ts),
    {
        proof {
            use_type_invariant(&*self);
        }
        let mut record = HitRecord::new();
        std::mem::swap(&mut record, &mut self.last_hit_ms);
        record.record_hit(name, ts);
        self.last_hit_ms = record;
    }

    /// Evaluates a keyword hit: the first policy (in list order) that lists
    /// the keyword and whose threshold the score reaches decides. A first hit,
    /// or one after the policy's window has expired, sets the volume; a hit
    /// within the debounce interval of the last decision is suppressed; any
    /// other hit renews the window. No policy taking the hit yields `Default`.
    /// Also returns the name of the deciding policy, if a policy took the hit.
    pub fn evaluate_with_policy(&mut self, keyword: &str, confidence: u64, timestamp_ms: i64) -> (r: (
        VolumeDecision,
        Option<String>,
    ))
        ensures
            final(self).policy_list() == old(self).policy_list(),
            (r.0, final(self).last_hits()) == evaluate_result(
                old(self).policy_list(),
                old(self).last_hits(),
                keyword@,
                confidence,
                timestamp_ms,
            ),
            match first_applicable(old(self).policy_list(), keyword@, confidence) {
                Some(i) => r.1 matches Some(n) && n@ == old(self).policy_list()[i].name@,
                None => r.1 is None,
            },
    {
        proof {
            use_type_invariant(&*self);
        }
        let ghost ps = self.policies@;
        let mut i: usize = 0;
        while i < self.policies.len()
            invariant
                self.last_hit_ms.wf(),
                self.policies@ == ps,
                self.last_hit_ms.hits@ == old(self).last_hit_ms.hits@,
                self.policies@ == old(self).policies@,
                i <= ps.len(),
                first_applicable(ps, keyword@, confidence) == first_applicable_from(
                    ps,
                    keyword@,
                    confidence,
                    i as int,
                ),
            decreases ps.len() - i,
        {
            let matched = lists_keyword(&self.policies[i].match_.keywords, keyword);
            if !matched || !binary64_less_eq(self.policies[i].match_.threshold_bits, confidence) {
                proof {
                    lemma_skip_policy(ps, keyword@, confidence, i as int);
                }
                i = i + 1;
                continue;
            }
            let name = self.policies[i].name.clone();
            let reported = self.policies[i].name.clone();
            let volume = self.policies[i].action.volume;
            let duration_seconds = self.policies[i].action.duration_seconds;
            let duration_ms: i128 = duration_seconds as i128 * 1000;
            let last = self.last_hit_ms.last_hit(name.as_str());
            match last {
                None => {
                    self.record_hit(name, timestamp_ms);
                    return (VolumeDecision::SetVolume { volume, duration_seconds }, Some(reported));
                },
                Some(t) => {
                    let elapsed: i128 = timestamp_ms as i128 - t as i128;
                    if elapsed > duration_ms {
                        self.record_hit(name, timestamp_ms);
                        return (VolumeDecision::SetVolume { volume, duration_seconds }, Some(reported));
                    } else if elapsed < DEBOUNCE_MS as i128 {
                        return (VolumeDecision::Default, Some(reported));
                    } else {
                        self.record_hit(name, timestamp_ms);
                        return (VolumeDecision::Renew, Some(reported));
                    }
                },
            }
        }
        (VolumeDecision::Default, None)
    }

    /// Evaluates a keyword hit: the first policy (in list order) that lists
    /// the keyword and whose threshold the score reaches decides. A first hit,
    /// or one after the policy's window has expired, sets the volume; a hit
    /// within the debounce interval of the last decision is suppressed; any
    /// other hit renews the window. No policy taking the hit yields `Default`.
    pub fn evaluate(&mut self, keyword: &str, confidence: u64, timestamp_ms: i64) -> (r:
        VolumeDecision)
        ensures
            final(self).policy_list() == old(self).policy_list(),
            (r, final(self).last_hits()) == evaluate_result(
                old(self).policy_list(),
                old(self).last_hits(),
                keyword@,
                confidence,
                timestamp_ms,
            ),
    {
        self.evaluate_with_policy(keyword, confidence, timestamp_ms).0
    }
}

} // verus!

verus! {

/// First match wins: the policy chosen for a hit is the first one, in list
/// order, that lists the keyword and whose threshold the score reaches; when
/// none does, no policy is chosen.
pub proof fn law_first_match_wins(ps: Seq<Policy>, keyword: Seq<char>, confidence: u64)
    ensures
        match first_applicable(ps, keyword, confidence) {
            Some(i) => {
                &&& 0 <= i < ps.len()
                &&& policy_applies(ps[i], keyword, confidence)
                &&& forall|j: int| 0 <= j < i ==> !policy_applies(#[trigger] ps[j], keyword, confidence)
            },
            None => forall|j: int| 0 <= j < ps.len() ==> !policy_applies(#[trigger] ps[j], keyword, confidence),
        },
{
    lemma_first_applicable_from(ps, keyword, confidence, 0);
}

/// Any keyword spec counts: a hit goes to a policy as soon as one of its
/// keyword specs, whichever it is, has the hit's keyword as display label
/// and the score reaches its threshold; no policy listed before it is chosen
/// unless it takes the hit too. A policy is chosen only when one of its specs
/// has that label and the score reaches its threshold.
pub proof fn law_any_listed_keyword_matches(ps: Seq<Policy>, keyword: Seq<char>, confidence: u64)
    ensures
        forall|j: int, k: int|
            0 <= j < ps.len() && 0 <= k < ps[j].match_.keywords@.len() && display_of(
                (#[trigger] ps[j].match_.keywords@[k])@,
            ) == keyword && binary64_le(ps[j].match_.threshold_bits, confidence) ==> (
            first_applicable(ps, keyword, confidence) matches Some(i) && i <= j),
        first_applicable(ps, keyword, confidence) matches Some(i) ==> {
            &&& 0 <= i < ps.len()
            &&& binary64_le(ps[i].match_.threshold_bits, confidence)
            &&& exists|k: int|
                0 <= k < ps[i].match_.keywords@.len() && display_of(
                    (#[trigger] ps[i].match_.keywords@[k])@,
                ) == keyword
        },
{
    law_first_match_wins(ps, keyword, confidence);
    assert forall|j: int, k: int|
        0 <= j < ps.len() && 0 <= k < ps[j].match_.keywords@.len() && display_of(
            (#[trigger] ps[j].match_.keywords@[k])@,
        ) == keyword && binary64_le(ps[j].match_.threshold_bits, confidence) implies (
    first_applicable(ps, keyword, confidence) matches Some(i) && i <= j) by {
        assert(names_keyword(ps[j], keyword));
        assert(policy_applies(ps[j], keyword, confidence));
    }
}

proof fn lemma_first_applicable_from(ps: Seq<Policy>, keyword: Seq<char>, confidence: u64, i: int)
    requires
        0 <= i <= ps.len(),
    ensures
        match first_applicable_from(ps, keyword, confidence, i) {
            Some(k) => {
                &&& i <= k < ps.len()
                &&& policy_applies(ps[k], keyword, confidence)
                &&& forall|j: int| i <= j < k ==> !policy_applies(#[trigger] ps[j], keyword, confidence)
            },
            None => forall|j: int| i <= j < ps.len() ==> !policy_applies(#[trigger] ps[j], keyword, confidence),
        },
    decreases ps.len() - i,
{
    if i < ps.len() {
        lemma_first_applicable_from(ps, keyword, confidence, i + 1);
    }
}

/// A policy is selected only by a score at least its threshold (never by a
/// NaN score or threshold), and a hit that no policy takes yields `Default`
/// and records nothing.
pub proof fn law_threshold_respected(
    ps: Seq<Policy>,
    last: Map<Seq<char>, i64>,
    keyword: Seq<char>,
    confidence: u64,
    ts: i64,
)
    ensures
        first_applicable(ps, keyword, confidence) matches Some(i) ==> binary64_le(
            ps[i].match_.threshold_bits,
            confidence,
        ),
        first_applicable(ps, keyword, confidence) is None ==> evaluate_result(
            ps,
            last,
            keyword,
            confidence,
            ts,
        ) == (VolumeDecision::Default, last),
{
    law_first_match_wins(ps, keyword, confidence);
}

/// Debounce: once a hit has set or renewed a policy's window at `t1`, the
/// same hit again at `t2` with `t1 <= t2 < t1 + 200` is suppressed and leaves
/// the record unchanged (for a policy with a positive duration).
pub proof fn law_repeat_within_debounce_is_suppressed(
    ps: Seq<Policy>,
    last: Map<Seq<char>, i64>,
    keyword: Seq<char>,
    confidence: u64,
    t1: i64,
    t2: i64,
)
    requires
        first_applicable(ps, keyword, confidence) matches Some(i) && ps[i].action.duration_seconds
            > 0,
        evaluate_result(ps, last, keyword, confidence, t1).0 != VolumeDecision::Default,
        t1 <= t2 < t1 + DEBOUNCE_MS,
    ensures
        ({
            let after = evaluate_result(ps, last, keyword, confidence, t1).1;
            evaluate_result(ps, after, keyword, confidence, t2) == (VolumeDecision::Default, after)
        }),
{
    law_first_match_wins(ps, keyword, confidence);
}

/// Renewal: once a hit has set or renewed a policy's window at `t1`, the
/// same hit at `t2`, past the debounce interval but within the policy's
/// duration, renews the window and records `t2`.
pub proof fn law_repeat_within_window_renews(
    ps: Seq<Policy>,
    last: Map<Seq<char>, i64>,
    keyword: Seq<char>,
    confidence: u64,
    t1: i64,
    t2: i64,
)
    requires
        first_applicable(ps, keyword, confidence) matches Some(i) && t1 + DEBOUNCE_MS <= t2 <= t1
            + ps[i].action.duration_seconds * 1000,
        evaluate_result(ps, last, keyword, confidence, t1).0 != VolumeDecision::Default,
    ensures
        ({
            let after = evaluate_result(ps, last, keyword, confidence, t1).1;
            let i = first_applicable(ps, keyword, confidence)->0;
            evaluate_result(ps, after, keyword, confidence, t2) == (
                VolumeDecision::Renew,
                after.insert(ps[i].name@, t2),
            )
        }),
{
    law_first_match_wins(ps, keyword, confidence);
}

/// Expiry: once a hit has set or renewed a policy's window at `t1`, the same
/// hit after the policy's duration has passed opens a new window.
pub proof fn law_repeat_after_window_sets_volume_again(
    ps: Seq<Policy>,
    last: Map<Seq<char>, i64>,
    keyword: Seq<char>,
    confidence: u64,
    t1: i64,
    t2: i64,
)
    requires
        first_applicable(ps, keyword, confidence) matches Some(i) && t2 > t1
            + ps[i].action.duration_seconds * 1000,
        evaluate_result(ps, last, keyword, confidence, t1).0 != VolumeDecision::Default,
    ensures
        ({
            let after = evaluate_result(ps, last, keyword, confidence, t1).1;
            let i = first_applicable(ps, keyword, confidence)->0;
            evaluate_result(ps, after, keyword, confidence, t2) == (
                VolumeDecision::SetVolume {
                    volume: ps[i].action.volume,
                    duration_seconds: ps[i].action.duration_seconds,
                },
                after.insert(ps[i].name@, t2),
            )
        }),
{
    law_first_match_wins(ps, keyword, confidence);
}

/// The first hit of a policy that has never decided opens a window with the
/// policy's volume and duration.
pub proof fn law_first_hit_sets_volume(
    ps: Seq<Policy>,
    last: Map<Seq<char>, i64>,
    keyword: Seq<char>,
    confidence: u64,
    ts: i64,
)
    requires
        first_applicable(ps, keyword, confidence) matches Some(i) && !last.contains_key(
            ps[i].name@,
        ),
    ensures
        ({
            let i = first_applicable(ps, keyword, confidence)->0;
            evaluate_result(ps, last, keyword, confidence, ts) == (
                VolumeDecision::SetVolume {
                    volume: ps[i].action.volume,
                    duration_seconds: ps[i].action.duration_seconds,
                },
                last.insert(ps[i].name@, ts),
            )
        }),
{
}

} // verus!

verus! {

/// An engine over a validated policy set only ever asks for volumes in
/// [0, 100] held for a positive number of seconds.
pub proof fn law_validated_policies_decide_valid_volumes(
    set: PolicySet,
    last: Map<Seq<char>, i64>,
    keyword: Seq<char>,
    confidence: u64,
    ts: i64,
)
    requires
        set.validate_spec() is Ok,
    ensures
        evaluate_result(set.policies@, last, keyword, confidence, ts).0 matches VolumeDecision::SetVolume {
            volume,
            duration_seconds,
        } ==> volume <= 100 && duration_seconds > 0,
{
    crate::policy::law_valid_set_is_well_formed(set);
    law_first_match_wins(set.policies@, keyword, confidence);
}

} // verus!
