//! The phonetic resolver: normalizes a word, resolves it through the
//! two-tier dictionary lookup with pass-through fallback, and converts a
//! full text word by word into paired or sentence-shaped output.

use vstd::prelude::*;

verus! {

use crate::dict::{decoded_source, parse_dict_spec, Dict};
use crate::text::{lower_of, replace_char_seq, ws_split};

/// An input word as it appeared in the text, paired with its resolved
/// phonetic value.
pub struct Pair {
    pub text: String,
    pub phonetic: String,
}

/// The two components of a pair, as sequences of characters.
pub open spec fn pair_view(p: Pair) -> (Seq<char>, Seq<char>) {
    (p.text@, p.phonetic@)
}

/// The lookup key of a word: its lowercase form with every literal period
/// removed.
pub open spec fn normalize_key(w: Seq<char>) -> Seq<char> {
    replace_char_seq(lower_of(w), '.', Seq::empty())
}

/// The phonetic value a word resolves to: the simplified dictionary takes
/// priority, the alphabet-form dictionary is the fallback, and a word found
/// in neither resolves to itself, unnormalized.
pub open spec fn resolve_word_spec(
    w: Seq<char>,
    simple: Map<Seq<char>, Seq<char>>,
    ipa: Map<Seq<char>, Seq<char>>,
) -> Seq<char> {
    let k = normalize_key(w);
    if simple.contains_key(k) {
        simple[k]
    } else if ipa.contains_key(k) {
        ipa[k]
    } else {
        w
    }
}

/// The resolved phonetic values of the words of a text, in input order.
pub open spec fn resolved_words(
    text: Seq<char>,
    simple: Map<Seq<char>, Seq<char>>,
    ipa: Map<Seq<char>, Seq<char>>,
) -> Seq<Seq<char>> {
    ws_split(text).map_values(|w: Seq<char>| resolve_word_spec(w, simple, ipa))
}

/// The words of a text, each paired with its resolved phonetic value, in
/// input order.
pub open spec fn resolved_pairs(
    text: Seq<char>,
    simple: Map<Seq<char>, Seq<char>>,
    ipa: Map<Seq<char>, Seq<char>>,
) -> Seq<(Seq<char>, Seq<char>)> {
    ws_split(text).map_values(|w: Seq<char>| (w, resolve_word_spec(w, simple, ipa)))
}

/// Holds the two dictionaries, built once and read-only thereafter: the
/// broad phonetic-alphabet dictionary and the simplified pronunciation
/// dictionary, shared by every conversion call.
pub struct PhoneticConverter {
    ipa: Dict,
    cmu_simple: Dict,
}

impl PhoneticConverter {
    /// The contents of the alphabet-form dictionary.
    pub closed spec fn ipa_dict(&self) -> Map<Seq<char>, Seq<char>> {
        self.ipa@
    }

    /// The contents of the simplified pronunciation dictionary.
    pub closed spec fn simple_dict(&self) -> Map<Seq<char>, Seq<char>> {
        self.cmu_simple@
    }

    /// A converter with two empty dictionaries.
    pub fn new() -> (c: Self)
        ensures
            c.ipa_dict() == Map::<Seq<char>, Seq<char>>::empty(),
            c.simple_dict() == Map::<Seq<char>, Seq<char>>::empty(),
    {
        PhoneticConverter { ipa: Dict::new(), cmu_simple: Dict::new() }
    }

    /// A converter over two already built dictionaries.
    pub fn with_dicts(ipa: Dict, cmu_simple: Dict) -> (c: Self)
        ensures
            c.ipa_dict() == ipa@,
            c.simple_dict() == cmu_simple@,
    {
        PhoneticConverter { ipa, cmu_simple }
    }

    /// A converter whose dictionaries are loaded from raw tabular sources,
    /// with invalid bytes repaired by substituting `replacement`.
    pub fn from_sources(ipa_source: &[u8], cmu_source: &[u8], replacement: &str) -> (c: Self)
        ensures
            c.ipa_dict() == parse_dict_spec(decoded_source(ipa_source@, replacement@)),
            c.simple_dict() == parse_dict_spec(decoded_source(cmu_source@, replacement@)),
    {
        PhoneticConverter {
            ipa: crate::dict::parse_dict_from_bytes(ipa_source, replacement),
            cmu_simple: crate::dict::parse_dict_from_bytes(cmu_source, replacement),
        }
    }

    /// The two dictionaries, alphabet-form first.
    pub fn get_dicts(&self) -> (r: (&Dict, &Dict))
        ensures
            r.0@ == self.ipa_dict(),
            r.1@ == self.simple_dict(),
    {
        (&self.ipa, &self.cmu_simple)
    }

    /// Resolves one word: the normalized key is looked up first in the
    /// simplified dictionary, then in the alphabet-form dictionary; a word
    /// found in neither resolves to itself.
    pub fn resolve_word(&self, word: &str) -> (r: String)
        ensures
            r@ == resolve_word_spec(word@, self.simple_dict(), self.ipa_dict()),
    {
        let lowered = crate::text::lowercase(word);
        let key = crate::text::replace_char(lowered.as_str(), '.', "");
        proof {
            reveal_strlit("");
            assert(""@ =~= Seq::<char>::empty());
        }
        match self.cmu_simple.get(key.as_str()) {
            Some(v) => v,
            None => match self.ipa.get(key.as_str()) {
                Some(v) => v,
                None => word.to_owned(),
            },
        }
    }

    /// Sentence mode: the text is split into whitespace-delimited words and
    /// each word is resolved in order; only the phonetic values are kept.
    /// The result has exactly one element per input word.
    pub fn convert_sentence(&self, input: &str) -> (r: Vec<String>)
        ensures
            r@.len() == ws_split(input@).len(),
            r@.map_values(|s: String| s@) == resolved_words(
                input@,
                self.simple_dict(),
                self.ipa_dict(),
            ),
    {
        let words = crate::text::split_whitespace_vec(input);
        let ghost word_views = words@.map_values(|w: String| w@);
        let mut r: Vec<String> = Vec::new();
        let mut i: usize = 0;
        while i < words.len()
            invariant
                i <= words@.len(),
                words@.map_values(|w: String| w@) == word_views,
                word_views == ws_split(input@),
                r@.len() == i,
                forall|j: int|
                    0 <= j < i ==> r@[j]@ == resolve_word_spec(
                        word_views[j],
                        self.simple_dict(),
                        self.ipa_dict(),
                    ),
            decreases words@.len() - i,
        {
            let resolved = self.resolve_word(words[i].as_str());
            r.push(resolved);
            i = i + 1;
        }
        proof {
            assert(r@.map_values(|s: String| s@) =~= resolved_words(
                input@,
                self.simple_dict(),
                self.ipa_dict(),
            ));
        }
        r
    }

    /// Paired mode: the text is split into whitespace-delimited words and
    /// each word is resolved in order; every element pairs the original
    /// word, verbatim, with its phonetic value. The result has exactly one
    /// element per input word.
    pub fn convert(&self, input: &str) -> (r: Vec<Pair>)
        ensures
            r@.len() == ws_split(input@).len(),
            r@.map_values(|p: Pair| pair_view(p)) == resolved_pairs(
                input@,
                self.simple_dict(),
                self.ipa_dict(),
            ),
    {
        let words = crate::text::split_whitespace_vec(input);
        let ghost word_views = words@.map_values(|w: String| w@);
        let mut r: Vec<Pair> = Vec::new();
        let mut i: usize = 0;
        while i < words.len()
            invariant
                i <= words@.len(),
                words@.map_values(|w: String| w@) == word_views,
                word_views == ws_split(input@),
                r@.len() == i,
                forall|j: int|
                    0 <= j < i ==> #[trigger] pair_view(r@[j]) == (
                        word_views[j],
                        resolve_word_spec(word_views[j], self.simple_dict(), self.ipa_dict()),
                    ),
            decreases words@.len() - i,
        {
            let original = words[i].clone();
            let resolved = self.resolve_word(words[i].as_str());
            r.push(Pair { text: original, phonetic: resolved });
            i = i + 1;
        }
        proof {
            assert(r@.map_values(|p: Pair| pair_view(p)) =~= resolved_pairs(
                input@,
                self.simple_dict(),
                self.ipa_dict(),
            ));
        }
        r
    }
}

/// Precedence: a word whose normalized key the simplified dictionary holds
/// resolves to that dictionary's value, whatever the alphabet-form
/// dictionary holds under the same key.
pub proof fn lemma_simplified_precedence(
    w: Seq<char>,
    simple: Map<Seq<char>, Seq<char>>,
    ipa: Map<Seq<char>, Seq<char>>,
)
    requires
        simple.contains_key(normalize_key(w)),
    ensures
        resolve_word_spec(w, simple, ipa) == simple[normalize_key(w)],
{
}

/// Identity fallback: a word whose normalized key neither dictionary holds
/// resolves to itself, unchanged.
pub proof fn lemma_unknown_word_identity(
    w: Seq<char>,
    simple: Map<Seq<char>, Seq<char>>,
    ipa: Map<Seq<char>, Seq<char>>,
)
    requires
        !simple.contains_key(normalize_key(w)),
        !ipa.contains_key(normalize_key(w)),
    ensures
        resolve_word_spec(w, simple, ipa) == w,
{
}

/// Normalization: two words with the same normalized key resolve to the
/// same phonetic value whenever some dictionary holds that key.
pub proof fn lemma_normalized_words_agree(
    w1: Seq<char>,
    w2: Seq<char>,
    simple: Map<Seq<char>, Seq<char>>,
    ipa: Map<Seq<char>, Seq<char>>,
)
    requires
        normalize_key(w1) == normalize_key(w2),
        simple.contains_key(normalize_key(w1)) || ipa.contains_key(normalize_key(w1)),
    ensures
        resolve_word_spec(w1, simple, ipa) == resolve_word_spec(w2, simple, ipa),
{
}

} // verus!
