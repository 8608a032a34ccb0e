//! Keyword spotting: hits, model file layout, and the spotter's per-stream
//! bookkeeping (base timestamp and repeated-result suppression).
use vstd::prelude::*;
use crate::ieee::BINARY64_ONE;
use crate::text::str_equal;

verus! {

/// A single keyword hit produced by the KWS engine.
#[derive(Debug, Clone)]
pub struct KwsHit {
    pub keyword: String,
    /// Detection score, as the bit pattern of a binary64 value.
    pub confidence_bits: u64,
    pub timestamp_ms: i64,
}

/// Whether a spotter result is reported as a hit, given the last keyword
/// reported: it must be non-empty and differ from that keyword.
pub open spec fn is_new_result(last: Option<Seq<char>>, keyword: Seq<char>) -> bool {
    keyword.len() > 0 && last != Some(keyword)
}

/// The last keyword reported after a spotter result: every non-empty result
/// replaces it.
pub open spec fn last_after(last: Option<Seq<char>>, keyword: Seq<char>) -> Option<Seq<char>> {
    if keyword.len() > 0 {
        Some(keyword)
    } else {
        last
    }
}

/// A keyword the spotter reports twice in a row is a hit at most once.
pub proof fn law_repeated_result_reported_once(last: Option<Seq<char>>, keyword: Seq<char>)
    ensures
        !is_new_result(last_after(last, keyword), keyword),
{
}

/// What a spotter result does, written out: a non-empty keyword is a hit
/// exactly when it is not the keyword last reported (so two different
/// keywords in a row are both hits, however alike they are), an empty one
/// never is, and every non-empty keyword becomes the last one reported while
/// an empty one leaves it as it was.
pub proof fn law_result_is_hit_unless_repeat(last: Option<Seq<char>>, keyword: Seq<char>)
    ensures
        keyword.len() > 0 && last != Some(keyword) ==> is_new_result(last, keyword),
        keyword.len() == 0 ==> !is_new_result(last, keyword),
        !is_new_result(Some(keyword), keyword),
        keyword.len() > 0 ==> last_after(last, keyword) == Some(keyword),
        keyword.len() == 0 ==> last_after(last, keyword) == last,
{
}

/// Two different non-empty results in a row, the first not the keyword last
/// reported, are both reported, in order.
pub proof fn law_different_results_are_both_hits(
    last: Option<Seq<char>>,
    a: Seq<char>,
    b: Seq<char>,
)
    requires
        a.len() > 0,
        b.len() > 0,
        a != b,
        last != Some(a),
    ensures
        reported(last, seq![a, b]) == seq![a, b],
        last_after_all(last, seq![a, b]) == Some(b),
{
    let ab = seq![a, b];
    assert(ab.drop_last() =~= seq![a]);
    let none = Seq::<Seq<char>>::empty();
    assert(seq![a].drop_last() =~= none);
    assert(last_after_all(last, none) == last);
    assert(reported(last, none) == none);
    assert(seq![a].last() == a);
    assert(is_new_result(last, a));
    assert(reported(last, seq![a]) =~= none.push(a));
    assert(none.push(a) =~= seq![a]);
    assert(last_after_all(last, seq![a]) == Some(a));
    assert(ab.last() == b);
    assert(reported(last, ab) =~= seq![a].push(b));
}

/// The last keyword reported after the spotter results `rs`, in order.
pub open spec fn last_after_all(last: Option<Seq<char>>, rs: Seq<Seq<char>>) -> Option<
    Seq<char>,
>
    decreases rs.len(),
{
    if rs.len() == 0 {
        last
    } else {
        last_after(last_after_all(last, rs.drop_last()), rs.last())
    }
}

/// The hits reported for the spotter results `rs`, in order, when `last` was
/// the keyword last reported before them.
pub open spec fn reported(last: Option<Seq<char>>, rs: Seq<Seq<char>>) -> Seq<Seq<char>>
    decreases rs.len(),
{
    if rs.len() == 0 {
        Seq::empty()
    } else {
        let before = reported(last, rs.drop_last());
        if is_new_result(last_after_all(last, rs.drop_last()), rs.last()) {
            before.push(rs.last())
        } else {
            before
        }
    }
}

/// The last keyword reported is the last hit, or the one from before the run
/// while there is no hit yet.
proof fn lemma_last_is_last_hit(last: Option<Seq<char>>, rs: Seq<Seq<char>>)
    ensures
        reported(last, rs).len() > 0 ==> last_after_all(last, rs) == Some(
            reported(last, rs).last(),
        ),
        reported(last, rs).len() == 0 ==> last_after_all(last, rs) == last,
    decreases rs.len(),
{
    if rs.len() > 0 {
        lemma_last_is_last_hit(last, rs.drop_last());
    }
}

/// Over any run of spotter results, every hit reported has a non-empty
/// keyword, no two hits in a row have the same keyword (repeats are skipped
/// across calls too), and the first hit differs from the keyword last
/// reported before the run.
pub proof fn law_hits_never_repeat(last: Option<Seq<char>>, rs: Seq<Seq<char>>)
    ensures
        forall|i: int|
            0 <= i < reported(last, rs).len() ==> (#[trigger] reported(last, rs)[i]).len() > 0,
        forall|i: int|
            0 <= i < reported(last, rs).len() - 1 ==> #[trigger] reported(last, rs)[i]
                != reported(last, rs)[i + 1],
        reported(last, rs).len() > 0 ==> last != Some(reported(last, rs)[0]),
    decreases rs.len(),
{
    if rs.len() > 0 {
        let prev = rs.drop_last();
        law_hits_never_repeat(last, prev);
        lemma_last_is_last_hit(last, prev);
    }
}

/// The results of two passes, reported one after the other with the last
/// reported keyword carried over, are reported as the two passes together.
pub proof fn law_passes_compose(last: Option<Seq<char>>, a: Seq<Seq<char>>, b: Seq<Seq<char>>)
    ensures
        reported(last, a + b) == reported(last, a) + reported(last_after_all(last, a), b),
        last_after_all(last, a + b) == last_after_all(last_after_all(last, a), b),
    decreases b.len(),
{
    if b.len() == 0 {
        assert(a + b =~= a);
        assert(reported(last, a) + reported(last_after_all(last, a), b) =~= reported(last, a));
    } else {
        law_passes_compose(last, a, b.drop_last());
        assert((a + b).drop_last() =~= a + b.drop_last());
        assert((a + b).last() == b.last());
        let p = reported(last, a);
        let q = reported(last_after_all(last, a), b.drop_last());
        assert((p + q).push(b.last()) =~= p + q.push(b.last()));
    }
}

/// All results of a run of passes, in order.
pub open spec fn all_results(passes: Seq<Seq<Seq<char>>>) -> Seq<Seq<char>>
    decreases passes.len(),
{
    if passes.len() == 0 {
        Seq::empty()
    } else {
        all_results(passes.drop_last()) + passes.last()
    }
}

/// The hits each pass returns, joined in call order, with the last reported
/// keyword carried from one pass to the next.
pub open spec fn hits_of_passes(last: Option<Seq<char>>, passes: Seq<Seq<Seq<char>>>) -> Seq<
    Seq<char>,
>
    decreases passes.len(),
{
    if passes.len() == 0 {
        Seq::empty()
    } else {
        hits_of_passes(last, passes.drop_last()) + reported(
            last_after_all(last, all_results(passes.drop_last())),
            passes.last(),
        )
    }
}

proof fn lemma_hits_of_passes(last: Option<Seq<char>>, passes: Seq<Seq<Seq<char>>>)
    ensures
        hits_of_passes(last, passes) == reported(last, all_results(passes)),
    decreases passes.len(),
{
    if passes.len() > 0 {
        lemma_hits_of_passes(last, passes.drop_last());
        law_passes_compose(last, all_results(passes.drop_last()), passes.last());
    }
}

/// Over the hits returned by any run of passes of one stream, joined in call
/// order, every hit has a non-empty keyword and no two hits in a row have the
/// same keyword: repeats are skipped across passes too.
pub proof fn law_hits_across_passes_never_repeat(
    last: Option<Seq<char>>,
    passes: Seq<Seq<Seq<char>>>,
)
    ensures
        hits_of_passes(last, passes) == reported(last, all_results(passes)),
        forall|i: int|
            0 <= i < hits_of_passes(last, passes).len() ==> (#[trigger] hits_of_passes(
                last,
                passes,
            )[i]).len() > 0,
        forall|i: int|
            0 <= i < hits_of_passes(last, passes).len() - 1 ==> #[trigger] hits_of_passes(
                last,
                passes,
            )[i] != hits_of_passes(last, passes)[i + 1],
{
    lemma_hits_of_passes(last, passes);
    law_hits_never_repeat(last, all_results(passes));
}

/// A result of the spotter: the keyword it reported (empty for none) and
/// where it starts, in milliseconds after the first buffered sample.
#[derive(Debug, Clone)]
pub struct SpotterResult {
    pub keyword: String,
    pub start_offset_ms: i64,
}

/// The keywords of a run of spotter results.
pub open spec fn keywords_of(rs: Seq<SpotterResult>) -> Seq<Seq<char>> {
    rs.map_values(|r: SpotterResult| r.keyword@)
}

/// The results among `rs` reported as hits, in order, when `last` was the
/// keyword last reported before them.
pub open spec fn reported_results(last: Option<Seq<char>>, rs: Seq<SpotterResult>) -> Seq<
    SpotterResult,
>
    decreases rs.len(),
{
    if rs.len() == 0 {
        Seq::empty()
    } else {
        let before = reported_results(last, rs.drop_last());
        if is_new_result(last_after_all(last, keywords_of(rs.drop_last())), rs.last().keyword@) {
            before.push(rs.last())
        } else {
            before
        }
    }
}

/// The keywords of the reported results are the reported keywords.
pub proof fn lemma_reported_results_keywords(last: Option<Seq<char>>, rs: Seq<SpotterResult>)
    ensures
        keywords_of(reported_results(last, rs)) == reported(last, keywords_of(rs)),
    decreases rs.len(),
{
    if rs.len() > 0 {
        lemma_reported_results_keywords(last, rs.drop_last());
        assert(keywords_of(rs).drop_last() =~= keywords_of(rs.drop_last()));
        let before = reported_results(last, rs.drop_last());
        assert(keywords_of(before.push(rs.last())) =~= keywords_of(before).push(
            rs.last().keyword@,
        ));
    }
}

/// The spotter's per-stream bookkeeping.
#[derive(Debug)]
pub struct StreamState {
    /// Number of samples buffered since the buffer was last empty.
    buffered_samples: usize,
    /// Timestamp (ms) of the first sample currently buffered.
    base_timestamp_ms: i64,
    /// The last keyword the spotter reported, used to skip repeats.
    last_result: Option<String>,
}

/// The hit for a spotter result: none for an empty keyword; otherwise the
/// keyword at `start_offset_ms` after the stream's base time, with a neutral
/// score of 1.0 (the spotter reports no score).
pub fn result_to_hit(keyword: &str, start_offset_ms: i64, base_timestamp_ms: i64) -> (r: Option<
    KwsHit,
>)
    requires
        i64::MIN <= start_offset_ms + base_timestamp_ms <= i64::MAX,
    ensures
        match r {
            None => keyword@.len() == 0,
            Some(h) => {
                &&& keyword@.len() > 0
                &&& h.keyword@ == keyword@
                &&& h.confidence_bits == BINARY64_ONE
                &&& h.timestamp_ms == start_offset_ms + base_timestamp_ms
            },
        },
{
    if keyword.is_empty() {
        return None;
    }
    Some(
        KwsHit {
            keyword: String::from_str(keyword),
            confidence_bits: BINARY64_ONE,
            timestamp_ms: start_offset_ms + base_timestamp_ms,
        },
    )
}

impl StreamState {
    pub closed spec fn buffered_view(&self) -> nat {
        self.buffered_samples as nat
    }

    pub closed spec fn base_view(&self) -> i64 {
        self.base_timestamp_ms
    }

    /// The last reported keyword, if any.
    pub closed spec fn last_view(&self) -> Option<Seq<char>> {
        match self.last_result {
            Some(s) => Some(s@),
            None => None,
        }
    }

    /// An empty stream.
    pub fn new() -> (r: Self)
        ensures
            r.buffered_view() == 0,
            r.base_view() == 0,
            r.last_view() is None,
    {
        StreamState { buffered_samples: 0, base_timestamp_ms: 0, last_result: None }
    }

    pub fn base_timestamp_ms(&self) -> (r: i64)
        ensures
            r == self.base_view(),
    {
        self.base_timestamp_ms
    }

    pub fn buffered_samples(&self) -> (r: usize)
        ensures
            r == self.buffered_view(),
    {
        self.buffered_samples
    }

    /// A chunk of `n_samples` samples captured at `timestamp_ms` joins the
    /// buffer; when the buffer was empty its time becomes the base time.
    pub fn accept_chunk(&mut self, n_samples: usize, timestamp_ms: i64)
        requires
            old(self).buffered_view() + n_samples <= usize::MAX,
        ensures
            final(self).buffered_view() == old(self).buffered_view() + n_samples,
            final(self).base_view() == if old(self).buffered_view() == 0 {
                timestamp_ms
            } else {
                old(self).base_view()
            },
            final(self).last_view() == old(self).last_view(),
    {
        if self.buffered_samples == 0 {
            self.base_timestamp_ms = timestamp_ms;
        }
        self.buffered_samples = self.buffered_samples + n_samples;
    }

    /// The hits for the results the spotter gave on one pass over the
    /// buffer, in order: each new result (see `accept_result`) becomes a hit
    /// at its offset after the stream's base time, with score 1.0; repeats
    /// and empty results are skipped, and the last reported keyword carries
    /// over to the next pass.
    pub fn hits_for_results(&mut self, results: &Vec<SpotterResult>) -> (hits: Vec<KwsHit>)
        requires
            forall|i: int|
                0 <= i < results@.len() ==> i64::MIN <= (#[trigger] results@[i]).start_offset_ms
                    + old(self).base_view() <= i64::MAX,
        ensures
            hits@.len() == reported_results(old(self).last_view(), results@).len(),
            forall|j: int|
                0 <= j < hits@.len() ==> {
                    let r = reported_results(old(self).last_view(), results@)[j];
                    &&& (#[trigger] hits@[j]).keyword@ == r.keyword@
                    &&& hits@[j].timestamp_ms == r.start_offset_ms + old(self).base_view()
                    &&& hits@[j].confidence_bits == BINARY64_ONE
                },
            hits@.map_values(|h: KwsHit| h.keyword@) == reported(
                old(self).last_view(),
                keywords_of(results@),
            ),
            final(self).last_view() == last_after_all(old(self).last_view(), keywords_of(results@)),
            final(self).buffered_view() == old(self).buffered_view(),
            final(self).base_view() == old(self).base_view(),
    {
        let ghost last0 = self.last_view();
        let mut hits: Vec<KwsHit> = Vec::new();
        let mut i: usize = 0;
        while i < results.len()
            invariant
                i <= results@.len(),
                forall|k: int|
                    0 <= k < results@.len() ==> i64::MIN <= (#[trigger] results@[k]).start_offset_ms
                        + self.base_view() <= i64::MAX,
                self.base_view() == old(self).base_view(),
                self.buffered_view() == old(self).buffered_view(),
                last0 == old(self).last_view(),
                self.last_view() == last_after_all(last0, keywords_of(results@.take(i as int))),
                hits@.len() == reported_results(last0, results@.take(i as int)).len(),
                forall|j: int|
                    0 <= j < hits@.len() ==> {
                        let r = reported_results(last0, results@.take(i as int))[j];
                        &&& (#[trigger] hits@[j]).keyword@ == r.keyword@
                        &&& hits@[j].timestamp_ms == r.start_offset_ms + self.base_view()
                        &&& hits@[j].confidence_bits == BINARY64_ONE
                    },
            decreases results@.len() - i,
        {
            let r = &results[i];
            proof {
                let t = results@.take(i + 1);
                assert(t.drop_last() =~= results@.take(i as int));
                assert(t.last() == results@[i as int]);
                assert(keywords_of(t).drop_last() =~= keywords_of(results@.take(i as int)));
            }
            if self.accept_result(r.keyword.as_str()) {
                let base = self.base_timestamp_ms;
                match result_to_hit(r.keyword.as_str(), r.start_offset_ms, base) {
                    Some(h) => hits.push(h),
                    None => {},
                }
            }
            i = i + 1;
        }
        proof {
            assert(results@.take(results@.len() as int) =~= results@);
            lemma_reported_results_keywords(last0, results@);
            assert(hits@.map_values(|h: KwsHit| h.keyword@) =~= keywords_of(
                reported_results(last0, results@),
            ));
        }
        hits
    }

    /// The spotter reported `keyword`. Returns whether it is a new hit: a
    /// non-empty keyword other than the last one reported. Every non-empty
    /// keyword becomes the last one reported.
    pub fn accept_result(&mut self, keyword: &str) -> (r: bool)
        ensures
            r == is_new_result(old(self).last_view(), keyword@),
            final(self).last_view() == last_after(old(self).last_view(), keyword@),
            final(self).buffered_view() == old(self).buffered_view(),
            final(self).base_view() == old(self).base_view(),
    {
        if keyword.is_empty() {
            return false;
        }
        let repeated = match &self.last_result {
            Some(last) => str_equal(last.as_str(), keyword),
            None => false,
        };
        self.last_result = Some(String::from_str(keyword));
        !repeated
    }
}

/// The files of a keyword spotting model.
#[derive(Debug, Clone, Copy, PartialEq, Eq, Structural)]
pub enum KwsFile {
    Encoder,
    Decoder,
    Joiner,
    Tokens,
    KeywordsFile,
}

/// Why a keyword spotting setup was refused.
#[derive(Debug, Clone, Copy, PartialEq, Eq, Structural)]
pub enum KwsError {
    /// A model file does not exist.
    FileNotFound { file: KwsFile },
}

/// Name of a model file as messages print it.
pub fn file_label(f: KwsFile) -> (r: &'static str)
    ensures
        r@ == match f {
            KwsFile::Encoder => "encoder"@,
            KwsFile::Decoder => "decoder"@,
            KwsFile::Joiner => "joiner"@,
            KwsFile::Tokens => "tokens"@,
            KwsFile::KeywordsFile => "keywords_file"@,
        },
{
    match f {
        KwsFile::Encoder => "encoder",
        KwsFile::Decoder => "decoder",
        KwsFile::Joiner => "joiner",
        KwsFile::Tokens => "tokens",
        KwsFile::KeywordsFile => "keywords_file",
    }
}

/// A no-op keyword spotting engine for early pipeline wiring and tests.
#[derive(Debug, Default)]
pub struct StubKwsEngine {
    _placeholder: (),
}

impl StubKwsEngine {
    pub fn new() -> (r: Self) {
        StubKwsEngine { _placeholder: () }
    }
}

} // verus!
