//! Text primitives: whitespace splitting, line splitting, character
//! replacement, lowercasing and lossy byte decoding, each with a
//! mathematical description over sequences of characters.

use vstd::prelude::*;

verus! {

use vstd::string::StringExecFns;

/// The characters with the Unicode `White_Space` property, the delimiters
/// used when a text is split into words.
pub open spec fn is_ws_char(c: char) -> bool {
    c == '\u{0009}' || c == '\u{000A}' || c == '\u{000B}' || c == '\u{000C}' || c == '\u{000D}'
        || c == '\u{0020}' || c == '\u{0085}' || c == '\u{00A0}' || c == '\u{1680}'
        || c == '\u{2000}' || c == '\u{2001}' || c == '\u{2002}' || c == '\u{2003}'
        || c == '\u{2004}' || c == '\u{2005}' || c == '\u{2006}' || c == '\u{2007}'
        || c == '\u{2008}' || c == '\u{2009}' || c == '\u{200A}' || c == '\u{2028}'
        || c == '\u{2029}' || c == '\u{202F}' || c == '\u{205F}' || c == '\u{3000}'
}

/// The words of `s`: the maximal runs of non-whitespace characters, in
/// order. `cur` is the run gathered so far.
pub open spec fn ws_split_acc(s: Seq<char>, cur: Seq<char>) -> Seq<Seq<char>>
    decreases s.len(),
{
    if s.len() <= 0 {
        if cur.len() == 0 {
            Seq::empty()
        } else {
            seq![cur]
        }
    } else if is_ws_char(s[0]) {
        if cur.len() == 0 {
            ws_split_acc(s.skip(1), Seq::empty())
        } else {
            seq![cur] + ws_split_acc(s.skip(1), Seq::empty())
        }
    } else {
        ws_split_acc(s.skip(1), cur.push(s[0]))
    }
}

/// The whitespace-delimited words of `s`, in order. Leading, trailing and
/// repeated whitespace contribute no empty words.
pub open spec fn ws_split(s: Seq<char>) -> Seq<Seq<char>> {
    ws_split_acc(s, Seq::empty())
}

/// `l` without a trailing carriage return, if it has one.
pub open spec fn strip_cr(l: Seq<char>) -> Seq<char> {
    if l.len() > 0 && l.last() == '\u{000D}' {
        l.drop_last()
    } else {
        l
    }
}

/// The lines of `s` after the current position: line feeds end a line, a
/// carriage return directly before a line feed is not part of the line, and
/// a final line feed opens no further line. A carriage return not followed
/// by a line feed is an ordinary character. `cur` is the line gathered so
/// far.
pub open spec fn lines_acc(s: Seq<char>, cur: Seq<char>) -> Seq<Seq<char>>
    decreases s.len(),
{
    if s.len() <= 0 {
        seq![cur]
    } else if s[0] == '\u{000A}' {
        if s.len() == 1 {
            seq![strip_cr(cur)]
        } else {
            seq![strip_cr(cur)] + lines_acc(s.skip(1), Seq::empty())
        }
    } else {
        lines_acc(s.skip(1), cur.push(s[0]))
    }
}

/// The lines of `s`, in order; the empty text has none.
pub open spec fn lines_of(s: Seq<char>) -> Seq<Seq<char>> {
    if s.len() == 0 {
        Seq::empty()
    } else {
        lines_acc(s, Seq::empty())
    }
}

/// `s` with every occurrence of the character `pat` replaced by `rep`.
pub open spec fn replace_char_seq(s: Seq<char>, pat: char, rep: Seq<char>) -> Seq<char>
    decreases s.len(),
{
    if s.len() <= 0 {
        Seq::empty()
    } else if s[0] == pat {
        rep + replace_char_seq(s.skip(1), pat, rep)
    } else {
        seq![s[0]] + replace_char_seq(s.skip(1), pat, rep)
    }
}

/// The tokens of `toks` joined with a single space between neighbours.
pub open spec fn join_spaced(toks: Seq<Seq<char>>) -> Seq<char>
    decreases toks.len(),
{
    if toks.len() <= 0 {
        Seq::empty()
    } else if toks.len() == 1 {
        toks[0]
    } else {
        toks[0] + seq![' '] + join_spaced(toks.skip(1))
    }
}

/// The lowercase form of a sequence of characters.
pub uninterp spec fn lower_of(s: Seq<char>) -> Seq<char>;

/// The text a sequence of bytes decodes to when every invalid byte
/// sequence is read as the replacement character.
pub uninterp spec fn lossy_decode(b: Seq<u8>) -> Seq<char>;

/// Relies on str::to_lowercase: the result depends on the characters alone.
#[verifier::external_body]
pub(crate) fn lowercase(s: &str) -> (r: String)
    ensures
        r@ == lower_of(s@),
{
    s.to_lowercase()
}

/// Relies on str::replace with a char pattern: every occurrence of the
/// pattern character is replaced by the given string, in order.
#[verifier::external_body]
pub(crate) fn replace_char(s: &str, pat: char, rep: &str) -> (r: String)
    ensures
        r@ == replace_char_seq(s@, pat, rep@),
{
    s.replace(pat, rep)
}

/// Relies on str::split_whitespace: the words are the maximal runs of
/// non-whitespace characters, in order, with no empty words.
#[verifier::external_body]
pub(crate) fn split_whitespace_vec(s: &str) -> (r: Vec<String>)
    ensures
        r@.map_values(|w: String| w@) == ws_split(s@),
{
    s.split_whitespace().map(|w| w.to_owned()).collect()
}

/// Relies on str::lines: the text is split at line feeds, a carriage return
/// directly before a line feed is not part of the line, and a final line
/// feed opens no new line.
#[verifier::external_body]
pub(crate) fn lines_vec(s: &str) -> (r: Vec<String>)
    ensures
        r@.map_values(|l: String| l@) == lines_of(s@),
{
    s.lines().map(|l| l.to_owned()).collect()
}

/// Relies on String::from_utf8_lossy: the result depends on the bytes alone.
#[verifier::external_body]
pub(crate) fn lossy_decode_bytes(b: &[u8]) -> (r: String)
    ensures
        r@ == lossy_decode(b@),
{
    String::from_utf8_lossy(b).into_owned()
}

/// The tokens of `toks` from position `from` on, joined with single spaces.
pub fn join_from(toks: &Vec<String>, from: usize) -> (r: String)
    requires
        from <= toks@.len(),
    ensures
        r@ == join_spaced(toks@.map_values(|t: String| t@).skip(from as int)),
    decreases toks@.len() - from,
{
    let ghost views = toks@.map_values(|t: String| t@);
    if from >= toks.len() {
        proof {
            assert(views.skip(from as int) =~= Seq::<Seq<char>>::empty());
        }
        String::new()
    } else if from + 1 == toks.len() {
        proof {
            assert(views.skip(from as int) =~= seq![views[from as int]]);
        }
        toks[from].clone()
    } else {
        let mut r = toks[from].clone();
        r.append(" ");
        let rest = join_from(toks, from + 1);
        let out = r.concat(rest.as_str());
        proof {
            reveal_strlit(" ");
            assert(" "@ =~= seq![' ']);
            assert(views.skip(from as int).skip(1) =~= views.skip(from as int + 1));
            assert(views.skip(from as int)[0] == views[from as int]);
            assert(out@ =~= views.skip(from as int)[0] + seq![' '] + join_spaced(
                views.skip(from as int).skip(1),
            ));
        }
        out
    }
}

} // verus!
