//! Keyword vocabularies for the spotter: parsing `DISPLAY=PHONEMES` specs and
//! rendering the spotter's keywords-file text.
use vstd::prelude::*;
use crate::text::{after_first, before_first, find_char, has_char, law_split_at_first, trim, trim_str};

verus! {

/// One keyword the spotter listens for.
#[derive(Debug, Clone)]
pub struct KeywordEntry {
    /// Label reported when the keyword is heard.
    pub display: String,
    /// Space-separated phonemes or pinyin tokens.
    pub phonemes: String,
}

/// A keyword vocabulary, in the order the specs were added.
#[derive(Debug, Clone)]
pub struct KeywordVocab {
    entries: Vec<KeywordEntry>,
}

/// Why a keyword spec was refused.
#[derive(Debug, Clone, PartialEq, Eq)]
pub enum VocabError {
    /// The spec has no `=` between display label and phonemes.
    MissingSeparator,
    /// The display label is empty once trimmed.
    EmptyDisplay,
    /// The phonemes are empty once trimmed.
    EmptyPhonemes,
}

/// How a spec parses: the trimmed text before the first `=` is the display
/// label and the trimmed text after it the phonemes; both must be non-empty.
pub open spec fn parse_spec(spec: Seq<char>) -> Result<(Seq<char>, Seq<char>), VocabError> {
    if !has_char(spec, '=') {
        Err(VocabError::MissingSeparator)
    } else if trim(before_first(spec, '=')).len() == 0 {
        Err(VocabError::EmptyDisplay)
    } else if trim(after_first(spec, '=')).len() == 0 {
        Err(VocabError::EmptyPhonemes)
    } else {
        Ok((trim(before_first(spec, '=')), trim(after_first(spec, '='))))
    }
}

/// The (display, phonemes) texts of an entry.
pub open spec fn entry_view(e: KeywordEntry) -> (Seq<char>, Seq<char>) {
    (e.display@, e.phonemes@)
}

/// One line of the spotter's keywords file: `PHONEMES @DISPLAY`.
pub open spec fn vocab_line(e: (Seq<char>, Seq<char>)) -> Seq<char> {
    e.1 + " @"@ + e.0 + "\n"@
}

/// The keywords-file text of a list of entries, one line each, in order.
pub open spec fn vocab_text(es: Seq<(Seq<char>, Seq<char>)>) -> Seq<char>
    decreases es.len(),
{
    if es.len() == 0 {
        Seq::empty()
    } else {
        vocab_text(es.drop_last()) + vocab_line(es.last())
    }
}

/// The first spec among `specs` that fails to parse, if any.
pub open spec fn first_bad_spec(specs: Seq<Seq<char>>) -> Option<VocabError>
    decreases specs.len(),
{
    if specs.len() == 0 {
        None
    } else {
        match first_bad_spec(specs.drop_last()) {
            Some(e) => Some(e),
            None => match parse_spec(specs.last()) {
                Err(e) => Some(e),
                Ok(_) => None,
            },
        }
    }
}

/// The parsed entries of a list of specs that all parse.
pub open spec fn parsed_entries(specs: Seq<Seq<char>>) -> Seq<(Seq<char>, Seq<char>)> {
    specs.map_values(|s: Seq<char>| parse_spec(s)->Ok_0)
}

impl KeywordVocab {
    /// The entries as (display, phonemes) texts, in order.
    pub closed spec fn entries_view(&self) -> Seq<(Seq<char>, Seq<char>)> {
        self.entries@.map_values(|e: KeywordEntry| entry_view(e))
    }

    /// An empty vocabulary.
    pub fn new() -> (r: Self)
        ensures
            r.entries_view() == Seq::<(Seq<char>, Seq<char>)>::empty(),
    {
        let r = KeywordVocab { entries: Vec::new() };
        assert(r.entries_view() =~= Seq::<(Seq<char>, Seq<char>)>::empty());
        r
    }

    /// Number of keywords.
    pub fn len(&self) -> (r: usize)
        ensures
            r == self.entries_view().len(),
    {
        self.entries.len()
    }

    /// Whether the vocabulary holds no keyword.
    pub fn is_empty(&self) -> (r: bool)
        ensures
            r == (self.entries_view().len() == 0),
    {
        self.entries.len() == 0
    }

    /// The entries, in order.
    pub fn entries(&self) -> (r: &[KeywordEntry])
        ensures
            r@.map_values(|e: KeywordEntry| entry_view(e)) == self.entries_view(),
    {
        self.entries.as_slice()
    }

    /// Parses a `DISPLAY=PHONEMES` spec and appends it; a spec that does not
    /// parse leaves the vocabulary unchanged.
    pub fn add_str(&mut self, spec: &str) -> (r: Result<(), VocabError>)
        ensures
            match parse_spec(spec@) {
                Ok(e) => r is Ok && final(self).entries_view() == old(self).entries_view().push(e),
                Err(err) => r == Err::<(), VocabError>(err) && final(self).entries_view()
                    == old(self).entries_view(),
            },
    {
        let n = spec.unicode_len();
        match find_char(spec, '=') {
            None => Err(VocabError::MissingSeparator),
            Some(k) => {
                let display = trim_str(spec.substring_char(0, k));
                let phonemes = trim_str(spec.substring_char(k + 1, n));
                proof {
                    assert(spec@.subrange(k + 1, n as int) =~= spec@.skip(k + 1));
                    assert(spec@.subrange(0, k as int) =~= spec@.take(k as int));
                }
                if display.is_empty() {
                    return Err(VocabError::EmptyDisplay);
                }
                if phonemes.is_empty() {
                    return Err(VocabError::EmptyPhonemes);
                }
                self.entries.push(
                    KeywordEntry {
                        display: String::from_str(display),
                        phonemes: String::from_str(phonemes),
                    },
                );
                proof {
                    assert(self.entries_view() =~= old(self).entries_view().push(
                        (display@, phonemes@),
                    ));
                }
                Ok(())
            },
        }
    }

    /// The keywords-file text for the spotter: one `PHONEMES @DISPLAY` line
    /// per keyword, in order.
    pub fn to_sherpa_onnx_string(&self) -> (r: String)
        ensures
            r@ == vocab_text(self.entries_view()),
    {
        let mut out = String::new();
        let mut i: usize = 0;
        while i < self.entries.len()
            invariant
                i <= self.entries@.len(),
                out@ == vocab_text(self.entries_view().take(i as int)),
            decreases self.entries@.len() - i,
        {
            let e = &self.entries[i];
            out.append(e.phonemes.as_str());
            out.append(" @");
            out.append(e.display.as_str());
            out.append("\n");
            proof {
                let v = self.entries_view();
                assert(v.take(i + 1).drop_last() =~= v.take(i as int));
                assert(v.take(i + 1).last() == entry_view(self.entries@[i as int]));
                assert(out@ =~= vocab_text(v.take(i as int)) + vocab_line(v[i as int]));
            }
            i = i + 1;
        }
        proof {
            assert(self.entries_view().take(self.entries@.len() as int) =~= self.entries_view());
        }
        out
    }
}

/// Building a vocabulary from keyword specs.
pub trait KeywordVocabExt: Sized {
    /// Build a vocabulary from a list of keyword spec strings.
    ///
    /// Each spec uses the format `DISPLAY=PHONEMES`, e.g.
    /// `"LIGHT_UP=L AY1 T AH1 P"` or `"演员=y ǎn y uán"`.
    fn from_specs(specs: &[&str]) -> Result<Self, VocabError>;
}

impl KeywordVocabExt for KeywordVocab {
    /// Adds the specs in order; the first one that does not parse is
    /// reported.
    fn from_specs(specs: &[&str]) -> (r: Result<Self, VocabError>)
        ensures
            match first_bad_spec(specs@.map_values(|s: &str| s@)) {
                None => r matches Ok(v) && v.entries_view() == parsed_entries(
                    specs@.map_values(|s: &str| s@),
                ),
                Some(e) => r == Err::<KeywordVocab, VocabError>(e),
            },
    {
        let ghost ss = specs@.map_values(|s: &str| s@);
        let mut vocab = KeywordVocab::new();
        let mut i: usize = 0;
        while i < specs.len()
            invariant
                i <= specs@.len(),
                ss == specs@.map_values(|s: &str| s@),
                first_bad_spec(ss.take(i as int)) is None,
                vocab.entries_view() == parsed_entries(ss.take(i as int)),
            decreases specs@.len() - i,
        {
            let ghost before = vocab.entries_view();
            proof {
                assert(ss.take(i + 1).drop_last() =~= ss.take(i as int));
                assert(ss.take(i + 1).last() == specs@[i as int]@);
            }
            match vocab.add_str(specs[i]) {
                Ok(()) => {},
                Err(e) => {
                    proof {
                        lemma_first_bad_extends(ss, i as int + 1);
                    }
                    return Err(e);
                },
            }
            proof {
                assert(parsed_entries(ss.take(i + 1)) =~= parsed_entries(ss.take(i as int)).push(
                    parse_spec(ss[i as int])->Ok_0,
                ));
            }
            i = i + 1;
        }
        proof {
            assert(ss.take(specs@.len() as int) =~= ss);
        }
        Ok(vocab)
    }
}

/// A first bad spec in a prefix is the first bad spec of the whole list.
proof fn lemma_first_bad_extends(ss: Seq<Seq<char>>, k: int)
    requires
        0 <= k <= ss.len(),
        first_bad_spec(ss.take(k)) is Some,
    ensures
        first_bad_spec(ss) == first_bad_spec(ss.take(k)),
    decreases ss.len() - k,
{
    if k < ss.len() {
        assert(ss.take(k + 1).drop_last() =~= ss.take(k));
        lemma_first_bad_extends(ss, k + 1);
    } else {
        assert(ss.take(k) =~= ss);
    }
}

} // verus!

verus! {

/// A vocabulary built from specs that all parse holds one keyword per spec.
pub proof fn law_vocab_has_one_entry_per_spec(specs: Seq<Seq<char>>)
    requires
        first_bad_spec(specs) is None,
    ensures
        parsed_entries(specs).len() == specs.len(),
{
}

/// How a keyword spec parses, written out: without any `=` it is refused
/// for the missing separator; otherwise, with the first `=` at `i`, the label
/// is `spec[..i]` and the phonemes `spec[i + 1..]`, each trimmed; an empty
/// label is refused first, then empty phonemes.
pub proof fn law_spec_parse_at_first_separator(spec: Seq<char>, i: int)
    requires
        0 <= i < spec.len(),
        spec[i] == '=',
        forall|j: int| 0 <= j < i ==> spec[j] != '=',
    ensures
        ({
            let display = trim(spec.subrange(0, i));
            let phonemes = trim(spec.subrange(i + 1, spec.len() as int));
            parse_spec(spec) == if display.len() == 0 {
                Err(VocabError::EmptyDisplay)
            } else if phonemes.len() == 0 {
                Err(VocabError::EmptyPhonemes)
            } else {
                Ok((display, phonemes))
            }
        }),
{
    law_split_at_first(spec, '=', i);
    assert(has_char(spec, '='));
}

/// A spec with no `=` is refused for the missing separator.
pub proof fn law_spec_without_separator(spec: Seq<char>)
    requires
        forall|j: int| 0 <= j < spec.len() ==> spec[j] != '=',
    ensures
        parse_spec(spec) == Err::<(Seq<char>, Seq<char>), VocabError>(VocabError::MissingSeparator),
{
}

/// The keywords file has one line per entry, in order: no entries give no
/// text, and one more entry adds exactly the line `PHONEMES @DISPLAY` and a
/// line break at the end, whatever the earlier entries are.
pub proof fn law_one_line_per_entry(
    es: Seq<(Seq<char>, Seq<char>)>,
    display: Seq<char>,
    phonemes: Seq<char>,
)
    ensures
        vocab_text(Seq::<(Seq<char>, Seq<char>)>::empty()) == Seq::<char>::empty(),
        vocab_text(es.push((display, phonemes))) == vocab_text(es) + phonemes + " @"@ + display
            + "\n"@,
{
    assert(es.push((display, phonemes)).drop_last() =~= es);
    assert(vocab_text(es) + (phonemes + " @"@ + display + "\n"@) =~= vocab_text(es) + phonemes
        + " @"@ + display + "\n"@);
}

/// Each spec of the form `DISPLAY=PHONEMES` with non-blank parts yields its
/// trimmed display label and phonemes.
pub proof fn law_spec_parts(spec: Seq<char>)
    requires
        parse_spec(spec) is Ok,
    ensures
        parse_spec(spec)->Ok_0 == (trim(before_first(spec, '=')), trim(after_first(spec, '='))),
        has_char(spec, '='),
{
}

} // verus!
