//! Pronunciation dictionaries: an immutable mapping from a normalized
//! (lowercase) word to a phonetic transcription string, built from raw
//! tabular text, one entry per line.

use vstd::prelude::*;

verus! {

use crate::text::{
    join_from, join_spaced, lines_of, lines_vec, lossy_decode, lossy_decode_bytes, lower_of,
    replace_char, replace_char_seq, split_whitespace_vec, ws_split,
};

/// A word-to-phonetic mapping. Entries are kept in insertion order; when a
/// key is inserted again, the later entry wins, which the view reflects.
pub struct Dict {
    entries: Vec<(String, String)>,
}

/// The mapping that a sequence of entries denotes: each entry inserted in
/// order, so that the last occurrence of a key wins.
pub open spec fn entries_map(s: Seq<(String, String)>) -> Map<Seq<char>, Seq<char>>
    decreases s.len(),
{
    if s.len() <= 0 {
        Map::empty()
    } else {
        entries_map(s.drop_last()).insert(s.last().0@, s.last().1@)
    }
}

impl View for Dict {
    type V = Map<Seq<char>, Seq<char>>;

    closed spec fn view(&self) -> Map<Seq<char>, Seq<char>> {
        entries_map(self.entries@)
    }
}

proof fn lemma_entries_map_absent(s: Seq<(String, String)>, k: Seq<char>)
    requires
        forall|j: int| 0 <= j < s.len() ==> s[j].0@ != k,
    ensures
        !entries_map(s).contains_key(k),
    decreases s.len(),
{
    if s.len() > 0 {
        lemma_entries_map_absent(s.drop_last(), k);
    }
}

proof fn lemma_entries_map_found(s: Seq<(String, String)>, k: Seq<char>, i: int)
    requires
        0 <= i < s.len(),
        s[i].0@ == k,
        forall|j: int| i < j < s.len() ==> s[j].0@ != k,
    ensures
        entries_map(s).contains_key(k),
        entries_map(s)[k] == s[i].1@,
    decreases s.len(),
{
    if i < s.len() - 1 {
        lemma_entries_map_found(s.drop_last(), k, i);
    }
}

impl Dict {
    /// A dictionary with no entries.
    pub fn new() -> (d: Dict)
        ensures
            d@ == Map::<Seq<char>, Seq<char>>::empty(),
    {
        Dict { entries: Vec::new() }
    }

    /// Adds an entry; an entry inserted under an existing key replaces it.
    pub fn insert(&mut self, word: String, phonetic: String)
        ensures
            final(self)@ == old(self)@.insert(word@, phonetic@),
    {
        let ghost before = self.entries@;
        let ghost w = word@;
        let ghost p = phonetic@;
        self.entries.push((word, phonetic));
        proof {
            assert(self.entries@.drop_last() =~= before);
            assert(self.entries@.last().0@ == w);
            assert(self.entries@.last().1@ == p);
        }
    }

    /// The phonetic value stored under `word`, if the key is present.
    pub fn get(&self, word: &str) -> (r: Option<String>)
        ensures
            match r {
                Some(v) => self@.contains_key(word@) && v@ == self@[word@],
                None => !self@.contains_key(word@),
            },
    {
        let key = word.to_owned();
        let n = self.entries.len();
        let mut i: usize = n;
        while i > 0
            invariant
                i <= n,
                n == self.entries@.len(),
                key@ == word@,
                forall|j: int| i <= j < n ==> self.entries@[j].0@ != word@,
            decreases i,
        {
            i = i - 1;
            if self.entries[i].0 == key {
                proof {
                    lemma_entries_map_found(self.entries@, word@, i as int);
                }
                return Some(self.entries[i].1.clone());
            }
        }
        proof {
            lemma_entries_map_absent(self.entries@, word@);
        }
        None
    }

    /// Whether the dictionary holds an entry under `word`.
    pub fn contains_key(&self, word: &str) -> (r: bool)
        ensures
            r == self@.contains_key(word@),
    {
        self.get(word).is_some()
    }
}

/// The dictionary denoted by a sequence of source lines: a line of at least
/// two whitespace-delimited tokens maps its lowercased first token to the
/// remaining tokens rejoined with single spaces; shorter lines are skipped;
/// on repeated keys the last line wins.
pub open spec fn dict_of_lines(ls: Seq<Seq<char>>) -> Map<Seq<char>, Seq<char>>
    decreases ls.len(),
{
    if ls.len() <= 0 {
        Map::empty()
    } else {
        let m = dict_of_lines(ls.drop_last());
        let toks = ws_split(ls.last());
        if toks.len() >= 2 {
            m.insert(lower_of(toks[0]), join_spaced(toks.skip(1)))
        } else {
            m
        }
    }
}

/// The dictionary denoted by raw tabular text.
pub open spec fn parse_dict_spec(text: Seq<char>) -> Map<Seq<char>, Seq<char>> {
    dict_of_lines(lines_of(text))
}

/// The text a raw dictionary source denotes: the bytes decoded leniently,
/// with every replacement character substituted by `replacement`.
pub open spec fn decoded_source(bytes: Seq<u8>, replacement: Seq<char>) -> Seq<char> {
    replace_char_seq(lossy_decode(bytes), '\u{FFFD}', replacement)
}

/// Builds a dictionary from tabular text: one entry per line, the first
/// token lowercased as the key, the remaining tokens space-joined as the
/// value; lines with fewer than two tokens are skipped; the last occurrence
/// of a key wins. Loading never fails.
pub fn parse_dict_from_str(data: &str) -> (d: Dict)
    ensures
        d@ == parse_dict_spec(data@),
{
    let lines = lines_vec(data);
    let ghost line_views = lines@.map_values(|l: String| l@);
    let mut d = Dict::new();
    let mut i: usize = 0;
    while i < lines.len()
        invariant
            i <= lines@.len(),
            lines@.map_values(|l: String| l@) == line_views,
            line_views == lines_of(data@),
            d@ == dict_of_lines(line_views.take(i as int)),
        decreases lines@.len() - i,
    {
        let toks = split_whitespace_vec(lines[i].as_str());
        let ghost tok_views = toks@.map_values(|t: String| t@);
        proof {
            assert(tok_views == ws_split(line_views[i as int]));
        }
        if toks.len() >= 2 {
            let key = crate::text::lowercase(toks[0].as_str());
            let value = join_from(&toks, 1);
            d.insert(key, value);
        }
        proof {
            assert(line_views.take(i as int + 1).drop_last() =~= line_views.take(i as int));
            assert(line_views.take(i as int + 1).last() == line_views[i as int]);
        }
        i = i + 1;
    }
    proof {
        assert(line_views.take(lines@.len() as int) =~= line_views);
    }
    d
}

/// Builds a dictionary from raw bytes: the bytes are decoded as text, with
/// invalid byte sequences repaired by substituting `replacement`, and the
/// decoded text is parsed as tabular dictionary source. Loading is total.
pub fn parse_dict_from_bytes(bytes: &[u8], replacement: &str) -> (d: Dict)
    ensures
        d@ == parse_dict_spec(decoded_source(bytes@, replacement@)),
{
    let content = lossy_decode_bytes(bytes);
    let repaired = replace_char(content.as_str(), '\u{FFFD}', replacement);
    parse_dict_from_str(repaired.as_str())
}

/// Loading the same dictionary source twice yields dictionaries with
/// identical key/value contents: the loaded mapping is a function of the
/// source text alone.
pub proof fn lemma_load_idempotent(d1: Dict, d2: Dict, text: Seq<char>)
    requires
        d1@ == parse_dict_spec(text),
        d2@ == parse_dict_spec(text),
    ensures
        d1@ == d2@,
{
}

} // verus!
