//! Keyword policies: their data, their validation rules and the display label
//! of a keyword spec.
use vstd::prelude::*;
use crate::ieee::{binary64_le, binary64_less_eq, BINARY64_ONE, BINARY64_QUARTER, BINARY64_ZERO};
use crate::text::{
    before_first, find_char, has_char, law_split_at_first, lemma_before_first_prefix,
    lemma_trim_slice, str_equal, trim, trim_str,
};

verus! {

/// A keyword match configuration.
#[derive(Debug, Clone)]
pub struct KeywordMatch {
    /// Keyword specs, each `DISPLAY` or `DISPLAY=PHONEMES`.
    pub keywords: Vec<String>,
    /// Minimum detection score, as the bit pattern of a binary64 value.
    pub threshold_bits: u64,
}

/// An action to execute when a policy matches.
#[derive(Debug, Clone)]
pub struct PolicyAction {
    /// Volume level in the range [0, 100].
    pub volume: u32,
    /// How long to keep the volume after the last hit, in seconds.
    pub duration_seconds: u32,
    /// What to do after the duration expires: `"auto"` or `"mute"`.
    pub then_action: String,
}

/// A single policy.
#[derive(Debug, Clone)]
pub struct Policy {
    pub name: String,
    pub match_: KeywordMatch,
    pub action: PolicyAction,
}

/// Top-level container for a policy file.
#[derive(Debug, Clone)]
pub struct PolicySet {
    pub policies: Vec<Policy>,
}

/// Why a policy set was refused; each names the offending policy.
#[derive(Debug, Clone)]
pub enum PolicyError {
    /// A policy has an empty name.
    EmptyName,
    /// A policy reuses the name of an earlier one.
    DuplicateName { name: String },
    /// A policy lists no keyword.
    NoKeywords { policy: String },
    /// A policy lists an empty keyword.
    EmptyKeyword { policy: String },
    /// A threshold lies outside [0, 1] (or is NaN).
    ThresholdOutOfRange { policy: String, threshold_bits: u64 },
    /// A volume is above 100.
    VolumeOutOfRange { policy: String, volume: u32 },
    /// A duration of zero seconds.
    ZeroDuration { policy: String },
    /// The follow-up action is neither `"auto"` nor `"mute"`.
    InvalidThen { policy: String, follow_up: String },
}

/// Default detection threshold, 0.25, as a binary64 bit pattern.
pub fn default_threshold() -> (r: u64)
    ensures
        r == BINARY64_QUARTER,
{
    BINARY64_QUARTER
}

/// Default follow-up action.
pub fn default_then() -> (r: String)
    ensures
        r@ == "mute"@,
{
    String::from_str("mute")
}

/// The display label of a keyword spec: the text before the first `=` (all of
/// it when there is none), without surrounding white space.
pub open spec fn display_of(spec: Seq<char>) -> Seq<char> {
    trim(before_first(spec, '='))
}

/// Extract the display label from a keyword spec.
///
/// A spec may be either `DISPLAY=PHONEMES` (used to build the KWS vocabulary)
/// or just `DISPLAY`.  This function returns the `DISPLAY` part.
pub fn keyword_display(spec: &str) -> (r: &str)
    ensures
        r@ == display_of(spec@),
{
    let head = match find_char(spec, '=') {
        Some(k) => spec.substring_char(0, k),
        None => spec,
    };
    trim_str(head)
}

/// Whether a threshold lies in [0, 1].
pub open spec fn threshold_in_range(t: u64) -> bool {
    binary64_le(BINARY64_ZERO, t) && binary64_le(t, BINARY64_ONE)
}

/// Whether a follow-up action is one of the two known ones.
pub open spec fn then_known(follow_up: Seq<char>) -> bool {
    follow_up == "auto"@ || follow_up == "mute"@
}

/// Whether policy `i` reuses the name of an earlier policy.
pub open spec fn name_taken(ps: Seq<Policy>, i: int) -> bool {
    exists|j: int| 0 <= j < i && ps[j].name@ == ps[i].name@
}

/// Whether a policy lists an empty keyword.
pub open spec fn has_empty_keyword(p: Policy) -> bool {
    exists|k: int| 0 <= k < p.match_.keywords@.len() && p.match_.keywords@[k]@.len() == 0
}

/// The first rule that policy `i` of `ps` breaks, checked in this order: name,
/// uniqueness among earlier names, keywords, threshold, volume, duration,
/// follow-up action.
pub open spec fn policy_fault(ps: Seq<Policy>, i: int) -> Option<PolicyError> {
    let p = ps[i];
    if p.name@.len() == 0 {
        Some(PolicyError::EmptyName)
    } else if name_taken(ps, i) {
        Some(PolicyError::DuplicateName { name: p.name })
    } else if p.match_.keywords@.len() == 0 {
        Some(PolicyError::NoKeywords { policy: p.name })
    } else if has_empty_keyword(p) {
        Some(PolicyError::EmptyKeyword { policy: p.name })
    } else if !threshold_in_range(p.match_.threshold_bits) {
        Some(
            PolicyError::ThresholdOutOfRange {
                policy: p.name,
                threshold_bits: p.match_.threshold_bits,
            },
        )
    } else if p.action.volume > 100 {
        Some(PolicyError::VolumeOutOfRange { policy: p.name, volume: p.action.volume })
    } else if p.action.duration_seconds == 0 {
        Some(PolicyError::ZeroDuration { policy: p.name })
    } else if !then_known(p.action.then_action@) {
        Some(PolicyError::InvalidThen { policy: p.name, follow_up: p.action.then_action })
    } else {
        None
    }
}

/// The first fault among policies `i..` of `ps`.
pub open spec fn first_fault_from(ps: Seq<Policy>, i: int) -> Option<PolicyError>
    decreases ps.len() - i,
{
    if i < 0 || i >= ps.len() {
        None
    } else {
        match policy_fault(ps, i) {
            Some(e) => Some(e),
            None => first_fault_from(ps, i + 1),
        }
    }
}

/// The first fault of a whole policy list, in list order.
pub open spec fn first_fault(ps: Seq<Policy>) -> Option<PolicyError> {
    first_fault_from(ps, 0)
}

/// `first_fault` is `None` exactly when no policy has a fault.
pub proof fn lemma_no_fault_means_all_valid(ps: Seq<Policy>, i: int)
    requires
        0 <= i <= ps.len(),
    ensures
        first_fault_from(ps, i) is None <==> forall|j: int| i <= j < ps.len() ==> (#[trigger] policy_fault(ps, j)) is None,
    decreases ps.len() - i,
{
    if i < ps.len() {
        lemma_no_fault_means_all_valid(ps, i + 1);
    }
}

/// Whether any earlier policy (index below `i`) already has the name of policy `i`.
fn name_seen(ps: &Vec<Policy>, i: usize) -> (r: bool)
    requires
        i < ps@.len(),
    ensures
        r == name_taken(ps@, i as int),
{
    let mut j: usize = 0;
    while j < i
        invariant
            i < ps@.len(),
            j <= i,
            forall|k: int| 0 <= k < j ==> ps@[k].name@ != ps@[i as int].name@,
        decreases i - j,
    {
        if str_equal(ps[j].name.as_str(), ps[i].name.as_str()) {
            return true;
        }
        j = j + 1;
    }
    false
}

/// Whether some keyword of the list is empty.
fn any_empty(keywords: &Vec<String>) -> (r: bool)
    ensures
        r == exists|k: int| 0 <= k < keywords@.len() && keywords@[k]@.len() == 0,
{
    let mut k: usize = 0;
    while k < keywords.len()
        invariant
            k <= keywords@.len(),
            forall|j: int| 0 <= j < k ==> keywords@[j]@.len() != 0,
        decreases keywords@.len() - k,
    {
        if keywords[k].as_str().is_empty() {
            return true;
        }
        k = k + 1;
    }
    false
}

/// Checks policy `i` against every rule, reporting the first broken one.
fn check_policy(ps: &Vec<Policy>, i: usize) -> (r: Option<PolicyError>)
    requires
        i < ps@.len(),
    ensures
        r == policy_fault(ps@, i as int),
{
    let p = &ps[i];
    if p.name.as_str().is_empty() {
        return Some(PolicyError::EmptyName);
    }
    if name_seen(ps, i) {
        return Some(PolicyError::DuplicateName { name: p.name.clone() });
    }
    if p.match_.keywords.len() == 0 {
        return Some(PolicyError::NoKeywords { policy: p.name.clone() });
    }
    if any_empty(&p.match_.keywords) {
        return Some(PolicyError::EmptyKeyword { policy: p.name.clone() });
    }
    let t = p.match_.threshold_bits;
    if !(binary64_less_eq(BINARY64_ZERO, t) && binary64_less_eq(t, BINARY64_ONE)) {
        return Some(PolicyError::ThresholdOutOfRange { policy: p.name.clone(), threshold_bits: t });
    }
    if p.action.volume > 100 {
        return Some(PolicyError::VolumeOutOfRange { policy: p.name.clone(), volume: p.action.volume });
    }
    if p.action.duration_seconds == 0 {
        return Some(PolicyError::ZeroDuration { policy: p.name.clone() });
    }
    let follow_up = p.action.then_action.as_str();
    if !(str_equal(follow_up, "auto") || str_equal(follow_up, "mute")) {
        return Some(
            PolicyError::InvalidThen { policy: p.name.clone(), follow_up: p.action.then_action.clone() },
        );
    }
    None
}

/// Checks a policy list in order and reports its first fault.
pub fn validate_policies(ps: &Vec<Policy>) -> (r: Result<(), PolicyError>)
    ensures
        r == match first_fault(ps@) {
            None => Ok(()),
            Some(e) => Err(e),
        },
{
    let mut i: usize = 0;
    while i < ps.len()
        invariant
            i <= ps@.len(),
            first_fault(ps@) == first_fault_from(ps@, i as int),
        decreases ps@.len() - i,
    {
        match check_policy(ps, i) {
            Some(e) => {
                return Err(e);
            },
            None => {},
        }
        i = i + 1;
    }
    Ok(())
}

impl PolicySet {
    /// What `validate` returns: the first fault, if any.
    pub open spec fn validate_spec(&self) -> Result<(), PolicyError> {
        match first_fault(self.policies@) {
            None => Ok(()),
            Some(e) => Err(e),
        }
    }

    /// Validate all policies: every policy has a non-empty name not used by an
    /// earlier one, at least one keyword and no empty keyword, a threshold in
    /// [0, 1], a volume of at most 100, a positive duration, and a follow-up
    /// action of `"auto"` or `"mute"`. The first broken rule is reported.
    pub fn validate(&self) -> (r: Result<(), PolicyError>)
        ensures
            r == self.validate_spec(),
            r is Ok <==> forall|i: int| 0 <= i < self.policies@.len() ==> (#[trigger] policy_fault(self.policies@, i)) is None,
    {
        proof {
            lemma_no_fault_means_all_valid(self.policies@, 0);
        }
        validate_policies(&self.policies)
    }
}

} // verus!

verus! {

/// A set that validates names only the two known follow-up actions, exactly
/// `"auto"` or `"mute"`: a set with any other follow-up text, however close,
/// is refused.
pub proof fn law_valid_follow_up_is_auto_or_mute(set: PolicySet)
    requires
        set.validate_spec() is Ok,
    ensures
        forall|i: int|
            0 <= i < set.policies@.len() ==> (#[trigger] set.policies@[i]).action.then_action@
                == "auto"@ || set.policies@[i].action.then_action@ == "mute"@,
{
    law_valid_set_is_well_formed(set);
}

/// Each rule a policy is refused for, written out: a policy breaks one of
/// its own rules exactly when its name is empty, it lists no keyword or an
/// empty one, its threshold lies outside [0, 1], its volume exceeds 100, its
/// duration is zero, or its follow-up is neither `"auto"` nor `"mute"`.
pub proof fn law_policy_rules(p: Policy)
    ensures
        policy_well_formed(p) <==> {
            &&& p.name@.len() > 0
            &&& p.match_.keywords@.len() > 0
            &&& forall|k: int|
                0 <= k < p.match_.keywords@.len() ==> (#[trigger] p.match_.keywords@[k])@.len() > 0
            &&& binary64_le(BINARY64_ZERO, p.match_.threshold_bits)
            &&& binary64_le(p.match_.threshold_bits, BINARY64_ONE)
            &&& p.action.volume <= 100
            &&& p.action.duration_seconds > 0
            &&& (p.action.then_action@ == "auto"@ || p.action.then_action@ == "mute"@)
        },
{
}

/// The display label is the text before the first `=`, trimmed: when the
/// first `=` of `spec` is at `i`, the label is `spec[..i]` without white space
/// at either end.
pub proof fn law_display_is_text_before_first_separator(spec: Seq<char>, i: int)
    requires
        0 <= i < spec.len(),
        spec[i] == '=',
        forall|j: int| 0 <= j < i ==> spec[j] != '=',
    ensures
        display_of(spec) == trim(spec.subrange(0, i)),
{
    law_split_at_first(spec, '=', i);
}

/// The rules a policy must meet by itself, apart from the uniqueness of its
/// name: a non-empty name, at least one keyword and no empty keyword, a
/// threshold in [0, 1], a volume of at most 100, a positive duration and a
/// known follow-up action.
pub open spec fn policy_well_formed(p: Policy) -> bool {
    &&& p.name@.len() > 0
    &&& p.match_.keywords@.len() > 0
    &&& !has_empty_keyword(p)
    &&& threshold_in_range(p.match_.threshold_bits)
    &&& p.action.volume <= 100
    &&& p.action.duration_seconds > 0
    &&& then_known(p.action.then_action@)
}

/// A list of policies has no fault exactly when each policy is well formed by
/// itself and no two share a name.
proof fn lemma_valid_iff(ps: Seq<Policy>)
    ensures
        first_fault(ps) is None <==> {
            &&& forall|i: int| 0 <= i < ps.len() ==> policy_well_formed(#[trigger] ps[i])
            &&& forall|i: int, j: int|
                0 <= i < j < ps.len() ==> (#[trigger] ps[i]).name@ != (#[trigger] ps[j]).name@
        },
{
    lemma_no_fault_means_all_valid(ps, 0);
    if first_fault(ps) is None {
        assert forall|i: int| 0 <= i < ps.len() implies policy_well_formed(#[trigger] ps[i]) by {
            assert(policy_fault(ps, i) is None);
        }
        assert forall|i: int, j: int|
            0 <= i < j < ps.len() implies (#[trigger] ps[i]).name@ != (#[trigger] ps[j]).name@ by {
            assert(policy_fault(ps, j) is None);
            assert(!name_taken(ps, j));
        }
    } else {
        if (forall|i: int| 0 <= i < ps.len() ==> policy_well_formed(#[trigger] ps[i])) && (forall|
            i: int,
            j: int,
        | 0 <= i < j < ps.len() ==> (#[trigger] ps[i]).name@ != (#[trigger] ps[j]).name@) {
            assert forall|j: int| 0 <= j < ps.len() implies (#[trigger] policy_fault(ps, j)) is None by {
                assert(policy_well_formed(ps[j]));
                if name_taken(ps, j) {
                    let i = choose|i: int| 0 <= i < j && ps[i].name@ == ps[j].name@;
                    assert(ps[i].name@ != ps[j].name@);
                }
            }
        }
    }
}

/// A set validates exactly when every policy keeps its own rules (see
/// `law_policy_rules`) and no two policies share a name.
pub proof fn law_valid_exactly_when_rules_hold(set: PolicySet)
    ensures
        set.validate_spec() is Ok <==> {
            &&& forall|i: int|
                0 <= i < set.policies@.len() ==> policy_well_formed(#[trigger] set.policies@[i])
            &&& forall|i: int, j: int|
                0 <= i < j < set.policies@.len() ==> (#[trigger] set.policies@[i]).name@ != (
                #[trigger] set.policies@[j]).name@
        },
{
    lemma_valid_iff(set.policies@);
}

/// Any selection of the policies of a valid set, each taken at most once and
/// in any order, is valid: policy `k` of `t` is policy `pick[k]` of `s`.
pub proof fn law_selection_of_valid_set_is_valid(s: PolicySet, t: PolicySet, pick: Seq<int>)
    requires
        s.validate_spec() is Ok,
        pick.len() == t.policies@.len(),
        forall|k: int|
            0 <= k < pick.len() ==> 0 <= #[trigger] pick[k] < s.policies@.len()
                && t.policies@[k] == s.policies@[pick[k]],
        forall|k1: int, k2: int|
            0 <= k1 < k2 < pick.len() ==> #[trigger] pick[k1] != #[trigger] pick[k2],
    ensures
        t.validate_spec() is Ok,
{
    let sp = s.policies@;
    let tp = t.policies@;
    lemma_valid_iff(sp);
    lemma_valid_iff(tp);
    assert forall|k: int| 0 <= k < tp.len() implies policy_well_formed(#[trigger] tp[k]) by {
        assert(tp[k] == sp[pick[k]]);
    }
    assert forall|k1: int, k2: int|
        0 <= k1 < k2 < tp.len() implies (#[trigger] tp[k1]).name@ != (#[trigger] tp[k2]).name@ by {
        let i = pick[k1];
        let j = pick[k2];
        assert(tp[k1] == sp[i] && tp[k2] == sp[j]);
        if i < j {
            assert(sp[i].name@ != sp[j].name@);
        } else {
            assert(sp[j].name@ != sp[i].name@);
        }
    }
}

/// Validity does not depend on the order of the policies: when `u` is `s`
/// reordered (policy `k` of `u` is policy `to[k]` of `s`, and `back` undoes
/// `to`), one validates exactly when the other does.
pub proof fn law_validity_ignores_order(s: PolicySet, u: PolicySet, to: Seq<int>, back: Seq<int>)
    requires
        to.len() == u.policies@.len(),
        back.len() == s.policies@.len(),
        forall|k: int|
            0 <= k < to.len() ==> 0 <= #[trigger] to[k] < s.policies@.len()
                && u.policies@[k] == s.policies@[to[k]] && back[to[k]] == k,
        forall|i: int| 0 <= i < back.len() ==> 0 <= #[trigger] back[i] < to.len() && to[back[i]] == i,
    ensures
        u.validate_spec() is Ok <==> s.validate_spec() is Ok,
{
    assert forall|k1: int, k2: int| 0 <= k1 < k2 < to.len() implies #[trigger] to[k1] != #[trigger] to[k2] by {
        assert(back[to[k1]] == k1 && back[to[k2]] == k2);
    }
    assert forall|i: int| 0 <= i < back.len() implies s.policies@[i] == u.policies@[#[trigger] back[i]] by {
        assert(u.policies@[back[i]] == s.policies@[to[back[i]]]);
    }
    assert forall|i1: int, i2: int| 0 <= i1 < i2 < back.len() implies #[trigger] back[i1] != #[trigger] back[i2] by {
        assert(to[back[i1]] == i1 && to[back[i2]] == i2);
    }
    if s.validate_spec() is Ok {
        law_selection_of_valid_set_is_valid(s, u, to);
    }
    if u.validate_spec() is Ok {
        law_selection_of_valid_set_is_valid(u, s, back);
    }
}

/// The display label of a keyword spec is a slice of the spec with no `=`
/// and no white space at either end; without `=` it is the whole spec
/// trimmed; and the label of a label is itself.
pub proof fn law_keyword_display(spec: Seq<char>)
    ensures
        exists|i: int, j: int|
            0 <= i <= j <= spec.len() && display_of(spec) == #[trigger] spec.subrange(i, j),
        !has_char(display_of(spec), '='),
        trim(display_of(spec)) == display_of(spec),
        !has_char(spec, '=') ==> display_of(spec) == trim(spec),
        display_of(display_of(spec)) == display_of(spec),
{
    let head = before_first(spec, '=');
    lemma_before_first_prefix(spec, '=');
    let (a, b) = lemma_trim_slice(head);
    let r = display_of(spec);
    assert(head.subrange(a, b) =~= spec.subrange(a, b));
    assert(r == spec.subrange(a, b));
    assert forall|i: int| 0 <= i < r.len() implies r[i] != '=' by {
        assert(r[i] == head[a + i]);
    }
    lemma_before_first_prefix(r, '=');
}

/// A policy set that validates has non-empty, pairwise distinct names, at
/// least one keyword per policy and no empty keyword, thresholds in [0, 1],
/// volumes of at most 100, positive durations and a known follow-up action.
pub proof fn law_valid_set_is_well_formed(set: PolicySet)
    requires
        set.validate_spec() is Ok,
    ensures
        forall|i: int|
            0 <= i < set.policies@.len() ==> {
                let p = #[trigger] set.policies@[i];
                &&& p.name@.len() > 0
                &&& p.match_.keywords@.len() > 0
                &&& forall|k: int| 0 <= k < p.match_.keywords@.len() ==> (#[trigger] p.match_.keywords@[k])@.len() > 0
                &&& threshold_in_range(p.match_.threshold_bits)
                &&& p.action.volume <= 100
                &&& p.action.duration_seconds > 0
                &&& then_known(p.action.then_action@)
            },
        forall|i: int, j: int|
            0 <= i < j < set.policies@.len() ==> (#[trigger] set.policies@[i]).name@ != (#[trigger] set.policies@[j]).name@,
{
    let ps = set.policies@;
    lemma_no_fault_means_all_valid(ps, 0);
    assert forall|i: int| 0 <= i < ps.len() implies {
        let p = #[trigger] ps[i];
        &&& p.name@.len() > 0
        &&& p.match_.keywords@.len() > 0
        &&& forall|k: int| 0 <= k < p.match_.keywords@.len() ==> (#[trigger] p.match_.keywords@[k])@.len() > 0
        &&& threshold_in_range(p.match_.threshold_bits)
        &&& p.action.volume <= 100
        &&& p.action.duration_seconds > 0
        &&& then_known(p.action.then_action@)
    } by {
        assert(policy_fault(ps, i) is None);
    }
    assert forall|i: int, j: int| 0 <= i < j < ps.len() implies (#[trigger] ps[i]).name@ != (#[trigger] ps[j]).name@ by {
        assert(policy_fault(ps, j) is None);
        assert(!name_taken(ps, j));
    }
}

} // verus!

verus! {

/// The text of one decimal digit.
pub open spec fn digit_text(d: int) -> Seq<char> {
    if d == 0 {
        "0"@
    } else if d == 1 {
        "1"@
    } else if d == 2 {
        "2"@
    } else if d == 3 {
        "3"@
    } else if d == 4 {
        "4"@
    } else if d == 5 {
        "5"@
    } else if d == 6 {
        "6"@
    } else if d == 7 {
        "7"@
    } else if d == 8 {
        "8"@
    } else {
        "9"@
    }
}

/// The decimal text of `v`, without leading zeros.
pub open spec fn decimal_text(v: nat) -> Seq<char>
    decreases v,
{
    if v < 10 {
        digit_text(v as int)
    } else {
        decimal_text(v / 10) + digit_text((v % 10) as int)
    }
}

/// The number that a text of decimal digits reads as.
pub open spec fn digits_value(s: Seq<char>) -> int
    decreases s.len(),
{
    if s.len() == 0 {
        0
    } else {
        digits_value(s.drop_last()) * 10 + (s.last() as int - '0' as int)
    }
}

/// The digit text of a single digit is that digit.
proof fn lemma_digit_text(d: int)
    requires
        0 <= d < 10,
    ensures
        digit_text(d).len() == 1,
        digit_text(d)[0] as int == '0' as int + d,
{
    reveal_strlit("0");
    reveal_strlit("1");
    reveal_strlit("2");
    reveal_strlit("3");
    reveal_strlit("4");
    reveal_strlit("5");
    reveal_strlit("6");
    reveal_strlit("7");
    reveal_strlit("8");
    reveal_strlit("9");
}

/// A number's decimal text is made of the digits `0`–`9`, has no leading
/// zero (but for 0 itself), and reads back as that number.
pub proof fn law_decimal_text_reads_back(v: nat)
    ensures
        decimal_text(v).len() >= 1,
        v >= 10 ==> decimal_text(v).len() >= 2,
        forall|i: int|
            0 <= i < decimal_text(v).len() ==> '0' <= #[trigger] decimal_text(v)[i] <= '9',
        decimal_text(v).len() > 1 ==> decimal_text(v)[0] != '0',
        digits_value(decimal_text(v)) == v,
    decreases v,
{
    if v < 10 {
        lemma_digit_text(v as int);
        let t = decimal_text(v);
        assert(t.drop_last() =~= Seq::<char>::empty());
        assert(digits_value(t.drop_last()) == 0);
        assert(t.last() == t[0]);
    } else {
        let q = v / 10;
        let d = (v % 10) as int;
        law_decimal_text_reads_back(q);
        lemma_digit_text(d);
        let head = decimal_text(q);
        let t = decimal_text(v);
        assert(t == head + digit_text(d));
        assert(t.drop_last() =~= head);
        assert(t.last() == digit_text(d)[0]);
        assert(digits_value(t) == digits_value(head) * 10 + (t.last() as int - '0' as int));
        assert(q * 10 + d == v) by (nonlinear_arith)
            requires
                q == v / 10,
                d == v % 10,
        ;
        assert forall|i: int| 0 <= i < t.len() implies '0' <= #[trigger] t[i] <= '9' by {
            if i < head.len() {
                assert(t[i] == head[i]);
            }
        }
        if q < 10 {
            lemma_digit_text(q as int);
            assert(head[0] as int != '0' as int);
        }
        assert(t[0] == head[0]);
    }
}

/// The message shown for a refused policy set. The threshold's value is not
/// repeated in its message.
pub open spec fn error_text(e: PolicyError) -> Seq<char> {
    match e {
        PolicyError::EmptyName => "policy name must not be empty"@,
        PolicyError::DuplicateName { name } => "duplicate policy name: "@ + name@,
        PolicyError::NoKeywords { policy } => "policy '"@ + policy@ + "' must have at least one keyword"@,
        PolicyError::EmptyKeyword { policy } => "policy '"@ + policy@ + "' contains an empty keyword"@,
        PolicyError::ThresholdOutOfRange { policy, .. } => "policy '"@ + policy@
            + "' threshold must be in [0, 1]"@,
        PolicyError::VolumeOutOfRange { policy, volume } => "policy '"@ + policy@
            + "' volume must be in [0, 100], got "@ + decimal_text(volume as nat),
        PolicyError::ZeroDuration { policy } => "policy '"@ + policy@
            + "' duration_seconds must be > 0"@,
        PolicyError::InvalidThen { policy, follow_up } => "policy '"@ + policy@
            + "' then must be 'auto' or 'mute', got "@ + follow_up@,
    }
}

/// The text of digit `d`.
fn digit_str(d: u32) -> (r: &'static str)
    requires
        d < 10,
    ensures
        r@ == digit_text(d as int),
{
    if d == 0 {
        "0"
    } else if d == 1 {
        "1"
    } else if d == 2 {
        "2"
    } else if d == 3 {
        "3"
    } else if d == 4 {
        "4"
    } else if d == 5 {
        "5"
    } else if d == 6 {
        "6"
    } else if d == 7 {
        "7"
    } else if d == 8 {
        "8"
    } else {
        "9"
    }
}

/// Appends the decimal text of `v` to `out`.
fn append_decimal(out: &mut String, v: u32)
    ensures
        final(out)@ == old(out)@ + decimal_text(v as nat),
    decreases v,
{
    if v >= 10 {
        append_decimal(out, v / 10);
    }
    out.append(digit_str(v % 10));
    proof {
        if v >= 10 {
            assert(old(out)@ + decimal_text((v / 10) as nat) + digit_text((v % 10) as int) =~= old(out)@
                + decimal_text(v as nat));
        } else {
            assert(v % 10 == v);
        }
    }
}

impl PolicyError {
    /// The message shown for this refusal.
    pub fn message(&self) -> (r: String)
        ensures
            r@ == error_text(*self),
            r@.len() > 0,
    {
        proof {
            reveal_strlit("policy name must not be empty");
            reveal_strlit("duplicate policy name: ");
            reveal_strlit("policy '");
        }
        match self {
            PolicyError::EmptyName => String::from_str("policy name must not be empty"),
            PolicyError::DuplicateName { name } => {
                let mut s = String::from_str("duplicate policy name: ");
                s.append(name.as_str());
                s
            },
            PolicyError::NoKeywords { policy } => {
                let mut s = String::from_str("policy '");
                s.append(policy.as_str());
                s.append("' must have at least one keyword");
                s
            },
            PolicyError::EmptyKeyword { policy } => {
                let mut s = String::from_str("policy '");
                s.append(policy.as_str());
                s.append("' contains an empty keyword");
                s
            },
            PolicyError::ThresholdOutOfRange { policy, .. } => {
                let mut s = String::from_str("policy '");
                s.append(policy.as_str());
                s.append("' threshold must be in [0, 1]");
                s
            },
            PolicyError::VolumeOutOfRange { policy, volume } => {
                let mut s = String::from_str("policy '");
                s.append(policy.as_str());
                s.append("' volume must be in [0, 100], got ");
                append_decimal(&mut s, *volume);
                s
            },
            PolicyError::ZeroDuration { policy } => {
                let mut s = String::from_str("policy '");
                s.append(policy.as_str());
                s.append("' duration_seconds must be > 0");
                s
            },
            PolicyError::InvalidThen { policy, follow_up } => {
                let mut s = String::from_str("policy '");
                s.append(policy.as_str());
                s.append("' then must be 'auto' or 'mute', got ");
                s.append(follow_up.as_str());
                s
            },
        }
    }
}

} // verus!
