//! Query analysis and rewriting: keyword and tag extraction, intent
//! recognition, stop-word removal, normalisation, abbreviation expansion and
//! search suggestions learnt from earlier queries.
use vstd::prelude::*;
use crate::text::{
    char_is_ascii, char_is_ascii_punct, copy_chars, char_is_whitespace, char_utf8_width, chars_eq,
    contains_chars, contains_seq, contains_string, from_chars, is_ascii_char, is_ascii_punct, is_white_space,
    lemma_utf8_len_push, lowercase, occurs_at, occurs_at_exec, owned, replace_all, replace_chars,
    starts_with, starts_with_chars, str_contains, str_replace, str_trim, to_chars, to_lowercase,
    trim, utf8_len, utf8_width,
};

verus! {

broadcast use vstd::seq_lib::group_seq_properties;

/// Function words at which a run of CJK text is cut into words; each is a word of its own.
pub open spec fn segment_stop_words() -> Seq<Seq<char>> {
    seq![
        seq!['和'],
        seq!['的'],
        seq!['是'],
        seq!['在'],
        seq!['从'],
        seq!['使', '用'],
        seq!['通', '过'],
        seq!['关', '于'],
        seq!['如', '何'],
        seq!['什', '么'],
        seq!['为', '什', '么'],
        seq!['怎', '么'],
        seq!['哪', '个'],
        seq!['哪', '些'],
        seq!['这', '个'],
        seq!['这', '些'],
        seq!['那', '个'],
        seq!['那', '些'],
        seq!['所', '有'],
        seq!['一', '些'],
        seq!['一', '个'],
        seq!['几', '个'],
        seq!['很', '多'],
        seq!['更', '多'],
        seq!['最', '少'],
    ]
}

/// Entry `k` of [`segment_stop_words`].
fn segment_stop_words_entry(k: usize) -> (w: Vec<char>)
    requires
        k < 25,
    ensures
        w@ == segment_stop_words()[k as int],
{
    match k {
        0 => vec!['和'],
        1 => vec!['的'],
        2 => vec!['是'],
        3 => vec!['在'],
        4 => vec!['从'],
        5 => vec!['使', '用'],
        6 => vec!['通', '过'],
        7 => vec!['关', '于'],
        8 => vec!['如', '何'],
        9 => vec!['什', '么'],
        10 => vec!['为', '什', '么'],
        11 => vec!['怎', '么'],
        12 => vec!['哪', '个'],
        13 => vec!['哪', '些'],
        14 => vec!['这', '个'],
        15 => vec!['这', '些'],
        16 => vec!['那', '个'],
        17 => vec!['那', '些'],
        18 => vec!['所', '有'],
        19 => vec!['一', '些'],
        20 => vec!['一', '个'],
        21 => vec!['几', '个'],
        22 => vec!['很', '多'],
        23 => vec!['更', '多'],
        _ => vec!['最', '少'],
    }
}

/// Stop words removed from a query, in the order in which they are removed.
pub open spec fn stop_words() -> Seq<Seq<char>> {
    seq![
        seq!['t', 'h', 'e'],
        seq!['a'],
        seq!['a', 'n'],
        seq!['i', 's'],
        seq!['a', 'r', 'e'],
        seq!['w', 'a', 's'],
        seq!['w', 'e', 'r', 'e'],
        seq!['b', 'e'],
        seq!['b', 'e', 'e', 'n'],
        seq!['t', 'o'],
        seq!['o', 'f'],
        seq!['i', 'n'],
        seq!['o', 'n'],
        seq!['a', 't'],
        seq!['b', 'y'],
        seq!['f', 'o', 'r'],
        seq!['w', 'i', 't', 'h'],
        seq!['f', 'r', 'o', 'm'],
        seq!['和'],
        seq!['的'],
        seq!['是'],
        seq!['在'],
        seq!['从'],
        seq!['使', '用'],
        seq!['通', '过'],
        seq!['关', '于'],
        seq!['如', '何'],
        seq!['什', '么'],
        seq!['为', '什', '么'],
        seq!['怎', '么'],
        seq!['哪', '个'],
        seq!['哪', '些'],
        seq!['这', '个'],
        seq!['这', '些'],
        seq!['那', '个'],
        seq!['那', '些'],
        seq!['所', '有'],
        seq!['一', '些'],
        seq!['t', 'h', 'i', 's'],
        seq!['t', 'h', 'e', 's', 'e'],
        seq!['t', 'h', 'a', 't'],
        seq!['t', 'h', 'o', 's', 'e'],
        seq!['a', 'l', 'l'],
        seq!['s', 'o', 'm', 'e'],
        seq!['p', 'l', 'e', 'a', 's', 'e'],
        seq!['h', 'e', 'l', 'p'],
        seq!['s', 'h', 'o', 'w'],
        seq!['f', 'i', 'n', 'd'],
        seq!['g', 'e', 't'],
        seq!['l', 'i', 's', 't'],
        seq!['的'],
        seq!['一', '个'],
        seq!['几', '个'],
        seq!['很', '多'],
        seq!['更', '多'],
        seq!['最', '少'],
        seq!['的'],
        seq!['的'],
        seq!['的'],
        seq!['的'],
        seq!['的'],
    ]
}

/// Entry `k` of [`stop_words`].
fn stop_words_entry(k: usize) -> (w: Vec<char>)
    requires
        k < 61,
    ensures
        w@ == stop_words()[k as int],
{
    match k {
        0 => vec!['t', 'h', 'e'],
        1 => vec!['a'],
        2 => vec!['a', 'n'],
        3 => vec!['i', 's'],
        4 => vec!['a', 'r', 'e'],
        5 => vec!['w', 'a', 's'],
        6 => vec!['w', 'e', 'r', 'e'],
        7 => vec!['b', 'e'],
        8 => vec!['b', 'e', 'e', 'n'],
        9 => vec!['t', 'o'],
        10 => vec!['o', 'f'],
        11 => vec!['i', 'n'],
        12 => vec!['o', 'n'],
        13 => vec!['a', 't'],
        14 => vec!['b', 'y'],
        15 => vec!['f', 'o', 'r'],
        16 => vec!['w', 'i', 't', 'h'],
        17 => vec!['f', 'r', 'o', 'm'],
        18 => vec!['和'],
        19 => vec!['的'],
        20 => vec!['是'],
        21 => vec!['在'],
        22 => vec!['从'],
        23 => vec!['使', '用'],
        24 => vec!['通', '过'],
        25 => vec!['关', '于'],
        26 => vec!['如', '何'],
        27 => vec!['什', '么'],
        28 => vec!['为', '什', '么'],
        29 => vec!['怎', '么'],
        30 => vec!['哪', '个'],
        31 => vec!['哪', '些'],
        32 => vec!['这', '个'],
        33 => vec!['这', '些'],
        34 => vec!['那', '个'],
        35 => vec!['那', '些'],
        36 => vec!['所', '有'],
        37 => vec!['一', '些'],
        38 => vec!['t', 'h', 'i', 's'],
        39 => vec!['t', 'h', 'e', 's', 'e'],
        40 => vec!['t', 'h', 'a', 't'],
        41 => vec!['t', 'h', 'o', 's', 'e'],
        42 => vec!['a', 'l', 'l'],
        43 => vec!['s', 'o', 'm', 'e'],
        44 => vec!['p', 'l', 'e', 'a', 's', 'e'],
        45 => vec!['h', 'e', 'l', 'p'],
        46 => vec!['s', 'h', 'o', 'w'],
        47 => vec!['f', 'i', 'n', 'd'],
        48 => vec!['g', 'e', 't'],
        49 => vec!['l', 'i', 's', 't'],
        50 => vec!['的'],
        51 => vec!['一', '个'],
        52 => vec!['几', '个'],
        53 => vec!['很', '多'],
        54 => vec!['更', '多'],
        55 => vec!['最', '少'],
        56 => vec!['的'],
        57 => vec!['的'],
        58 => vec!['的'],
        59 => vec!['的'],
        _ => vec!['的'],
    }
}

/// Abbreviations and what they expand to, in the order in which they are expanded.
pub open spec fn abbreviations() -> Seq<(Seq<char>, Seq<char>)> {
    seq![
        (seq!['k', '8', 's'], seq!['k', 'u', 'b', 'e', 'r', 'n', 'e', 't', 'e', 's']),
        (seq!['k', '8', 's'], seq!['k', '8', 's']),
        (seq!['d', 'b'], seq!['d', 'a', 't', 'a', 'b', 'a', 's', 'e']),
        (seq!['f', 'e'], seq!['f', 'r', 'o', 'n', 't', 'e', 'n', 'd']),
        (seq!['b', 'e'], seq!['b', 'a', 'c', 'k', 'e', 'n', 'd']),
        (seq!['a', 'p', 'i'], seq!['a', 'p', 'i']),
        (seq!['s', 'd', 'k'], seq!['s', 'o', 'f', 't', 'w', 'a', 'r', 'e', ' ', 'd', 'e', 'v', 'e', 'l', 'o', 'p', 'm', 'e', 'n', 't', ' ', 'k', 'i', 't']),
        (seq!['c', 'l', 'i'], seq!['c', 'o', 'm', 'm', 'a', 'n', 'd', ' ', 'l', 'i', 'n', 'e', ' ', 'i', 'n', 't', 'e', 'r', 'f', 'a', 'c', 'e']),
        (seq!['g', 'u', 'i'], seq!['g', 'r', 'a', 'p', 'h', 'i', 'c', 'a', 'l', ' ', 'u', 's', 'e', 'r', ' ', 'i', 'n', 't', 'e', 'r', 'f', 'a', 'c', 'e']),
        (seq!['u', 'i'], seq!['u', 's', 'e', 'r', ' ', 'i', 'n', 't', 'e', 'r', 'f', 'a', 'c', 'e']),
        (seq!['u', 'x'], seq!['u', 's', 'e', 'r', ' ', 'e', 'x', 'p', 'e', 'r', 'i', 'e', 'n', 'c', 'e']),
        (seq!['a', 'i'], seq!['a', 'r', 't', 'i', 'f', 'i', 'c', 'i', 'a', 'l', ' ', 'i', 'n', 't', 'e', 'l', 'l', 'i', 'g', 'e', 'n', 'c', 'e']),
        (seq!['m', 'l'], seq!['m', 'a', 'c', 'h', 'i', 'n', 'e', ' ', 'l', 'e', 'a', 'r', 'n', 'i', 'n', 'g']),
        (seq!['d', 'l'], seq!['d', 'e', 'e', 'p', ' ', 'l', 'e', 'a', 'r', 'n', 'i', 'n', 'g']),
        (seq!['n', 'l', 'p'], seq!['n', 'a', 't', 'u', 'r', 'a', 'l', ' ', 'l', 'a', 'n', 'g', 'u', 'a', 'g', 'e', ' ', 'p', 'r', 'o', 'c', 'e', 's', 's', 'i', 'n', 'g']),
        (seq!['l', 'l', 'm'], seq!['l', 'a', 'r', 'g', 'e', ' ', 'l', 'a', 'n', 'g', 'u', 'a', 'g', 'e', ' ', 'm', 'o', 'd', 'e', 'l']),
        (seq!['r', 'p', 'a'], seq!['r', 'e', 't', 'r', 'i', 'e', 'v', 'a', 'l', '-', 'a', 'u', 'g', 'm', 'e', 'n', 't', 'e', 'd', '-', 'g', 'e', 'n', 'e', 'r', 'a', 't', 'i', 'o', 'n']),
        (seq!['a', 'g', 'i'], seq!['a', 'r', 't', 'i', 'f', 'i', 'c', 'i', 'a', 'l', ' ', 'g', 'e', 'n', 'e', 'r', 'a', 'l', ' ', 'i', 'n', 't', 'e', 'l', 'l', 'i', 'g', 'e', 'n', 'c', 'e']),
    ]
}

/// A word with its abbreviation expanded (see [`expand_word`]).
fn expand_word_exec(w: &Vec<char>) -> (r: Vec<char>)
    ensures
        r@ == expand_word(w@),
{
    let ghost g = abbreviations();
    let mut j: usize = 0;
    assert(g.skip(0) =~= g);
    while j < 18
        invariant
            j <= 18,
            g == abbreviations(),
            g.len() == 18,
            glossary_lookup(w@, g) == glossary_lookup(w@, g.skip(j as int)),
        decreases 18 - j,
    {
        let (abbrev, full) = abbreviations_entry(j);
        assert(g.skip(j as int)[0] == g[j as int]);
        assert(g.skip(j as int).drop_first() =~= g.skip(j + 1));
        if chars_eq(abbrev.as_slice(), w.as_slice()) {
            return full;
        }
        j = j + 1;
    }
    assert(g.skip(18) =~= Seq::<(Seq<char>, Seq<char>)>::empty());
    let mut r: Vec<char> = Vec::new();
    let mut k: usize = 0;
    while k < w.len()
        invariant
            k <= w@.len(),
            r@ == w@.take(k as int),
        decreases w@.len() - k,
    {
        r.push(w[k]);
        assert(w@.take(k + 1) =~= w@.take(k as int).push(w@[k as int]));
        k = k + 1;
    }
    assert(w@.take(w@.len() as int) =~= w@);
    r
}

/// Entry `k` of [`abbreviations`].
fn abbreviations_entry(k: usize) -> (p: (Vec<char>, Vec<char>))
    requires
        k < 18,
    ensures
        p.0@ == abbreviations()[k as int].0,
        p.1@ == abbreviations()[k as int].1,
{
    match k {
        0 => (vec!['k', '8', 's'], vec!['k', 'u', 'b', 'e', 'r', 'n', 'e', 't', 'e', 's']),
        1 => (vec!['k', '8', 's'], vec!['k', '8', 's']),
        2 => (vec!['d', 'b'], vec!['d', 'a', 't', 'a', 'b', 'a', 's', 'e']),
        3 => (vec!['f', 'e'], vec!['f', 'r', 'o', 'n', 't', 'e', 'n', 'd']),
        4 => (vec!['b', 'e'], vec!['b', 'a', 'c', 'k', 'e', 'n', 'd']),
        5 => (vec!['a', 'p', 'i'], vec!['a', 'p', 'i']),
        6 => (vec!['s', 'd', 'k'], vec!['s', 'o', 'f', 't', 'w', 'a', 'r', 'e', ' ', 'd', 'e', 'v', 'e', 'l', 'o', 'p', 'm', 'e', 'n', 't', ' ', 'k', 'i', 't']),
        7 => (vec!['c', 'l', 'i'], vec!['c', 'o', 'm', 'm', 'a', 'n', 'd', ' ', 'l', 'i', 'n', 'e', ' ', 'i', 'n', 't', 'e', 'r', 'f', 'a', 'c', 'e']),
        8 => (vec!['g', 'u', 'i'], vec!['g', 'r', 'a', 'p', 'h', 'i', 'c', 'a', 'l', ' ', 'u', 's', 'e', 'r', ' ', 'i', 'n', 't', 'e', 'r', 'f', 'a', 'c', 'e']),
        9 => (vec!['u', 'i'], vec!['u', 's', 'e', 'r', ' ', 'i', 'n', 't', 'e', 'r', 'f', 'a', 'c', 'e']),
        10 => (vec!['u', 'x'], vec!['u', 's', 'e', 'r', ' ', 'e', 'x', 'p', 'e', 'r', 'i', 'e', 'n', 'c', 'e']),
        11 => (vec!['a', 'i'], vec!['a', 'r', 't', 'i', 'f', 'i', 'c', 'i', 'a', 'l', ' ', 'i', 'n', 't', 'e', 'l', 'l', 'i', 'g', 'e', 'n', 'c', 'e']),
        12 => (vec!['m', 'l'], vec!['m', 'a', 'c', 'h', 'i', 'n', 'e', ' ', 'l', 'e', 'a', 'r', 'n', 'i', 'n', 'g']),
        13 => (vec!['d', 'l'], vec!['d', 'e', 'e', 'p', ' ', 'l', 'e', 'a', 'r', 'n', 'i', 'n', 'g']),
        14 => (vec!['n', 'l', 'p'], vec!['n', 'a', 't', 'u', 'r', 'a', 'l', ' ', 'l', 'a', 'n', 'g', 'u', 'a', 'g', 'e', ' ', 'p', 'r', 'o', 'c', 'e', 's', 's', 'i', 'n', 'g']),
        15 => (vec!['l', 'l', 'm'], vec!['l', 'a', 'r', 'g', 'e', ' ', 'l', 'a', 'n', 'g', 'u', 'a', 'g', 'e', ' ', 'm', 'o', 'd', 'e', 'l']),
        16 => (vec!['r', 'p', 'a'], vec!['r', 'e', 't', 'r', 'i', 'e', 'v', 'a', 'l', '-', 'a', 'u', 'g', 'm', 'e', 'n', 't', 'e', 'd', '-', 'g', 'e', 'n', 'e', 'r', 'a', 't', 'i', 'o', 'n']),
        _ => (vec!['a', 'g', 'i'], vec!['a', 'r', 't', 'i', 'f', 'i', 'c', 'i', 'a', 'l', ' ', 'g', 'e', 'n', 'e', 'r', 'a', 'l', ' ', 'i', 'n', 't', 'e', 'l', 'l', 'i', 'g', 'e', 'n', 'c', 'e']),
    }
}

/// Technical terms and their Chinese equivalent, which keyword extraction adds beside the term.
pub open spec fn keyword_glossary() -> Seq<(Seq<char>, Seq<char>)> {
    seq![
        (seq!['d', 'a', 't', 'a', 'b', 'a', 's', 'e'], seq!['数', '据', '库']),
        (seq!['s', 'e', 'r', 'v', 'e', 'r'], seq!['服', '务', '器']),
        (seq!['s', 'e', 'r', 'v', 'i', 'c', 'e'], seq!['服', '务']),
        (seq!['f', 'u', 'n', 'c', 't', 'i', 'o', 'n'], seq!['函', '数']),
        (seq!['c', 'o', 'n', 'f', 'i', 'g'], seq!['配', '置']),
    ]
}

/// Entry `k` of [`keyword_glossary`].
fn keyword_glossary_entry(k: usize) -> (p: (Vec<char>, Vec<char>))
    requires
        k < 5,
    ensures
        p.0@ == keyword_glossary()[k as int].0,
        p.1@ == keyword_glossary()[k as int].1,
{
    match k {
        0 => (vec!['d', 'a', 't', 'a', 'b', 'a', 's', 'e'], vec!['数', '据', '库']),
        1 => (vec!['s', 'e', 'r', 'v', 'e', 'r'], vec!['服', '务', '器']),
        2 => (vec!['s', 'e', 'r', 'v', 'i', 'c', 'e'], vec!['服', '务']),
        3 => (vec!['f', 'u', 'n', 'c', 't', 'i', 'o', 'n'], vec!['函', '数']),
        _ => (vec!['c', 'o', 'n', 'f', 'i', 'g'], vec!['配', '置']),
    }
}

// ---------------------------------------------------------------------
// Splitting
// ---------------------------------------------------------------------

/// Which characters separate the pieces of a query.
#[derive(Clone, Copy, Debug, PartialEq, Eq, Structural)]
pub enum SepKind {
    /// White space only.
    Whitespace,
    /// White space and ASCII punctuation.
    WordBreak,
    /// White space and ASCII punctuation other than `#`.
    TagBreak,
}

pub open spec fn is_sep(kind: SepKind, c: char) -> bool {
    match kind {
        SepKind::Whitespace => is_white_space(c),
        SepKind::WordBreak => is_white_space(c) || is_ascii_punct(c),
        SepKind::TagBreak => is_white_space(c) || (is_ascii_punct(c) && c != '#'),
    }
}

fn is_sep_exec(kind: SepKind, c: char) -> (r: bool)
    ensures
        r == is_sep(kind, c),
{
    match kind {
        SepKind::Whitespace => char_is_whitespace(c),
        SepKind::WordBreak => char_is_whitespace(c) || char_is_ascii_punct(c),
        SepKind::TagBreak => char_is_whitespace(c) || (char_is_ascii_punct(c) && c != '#'),
    }
}

/// The pieces of `s` between separators, empty ones included (what
/// `str::split` with a character predicate yields).
pub open spec fn split_pieces(s: Seq<char>, kind: SepKind) -> Seq<Seq<char>>
    decreases s.len(),
{
    if s.len() == 0 {
        seq![Seq::<char>::empty()]
    } else {
        let r = split_pieces(s.drop_last(), kind);
        if is_sep(kind, s.last()) {
            r.push(Seq::<char>::empty())
        } else {
            r.update(r.len() - 1, r.last().push(s.last()))
        }
    }
}

pub proof fn lemma_split_pieces_len(s: Seq<char>, kind: SepKind)
    ensures
        split_pieces(s, kind).len() >= 1,
    decreases s.len(),
{
    if s.len() > 0 {
        lemma_split_pieces_len(s.drop_last(), kind);
    }
}

/// Splits `s` into the pieces between separators of the given kind.
pub fn split_on(s: &[char], kind: SepKind) -> (ps: Vec<Vec<char>>)
    ensures
        ps.deep_view() == split_pieces(s@, kind),
{
    let mut done: Vec<Vec<char>> = Vec::new();
    let mut cur: Vec<char> = Vec::new();
    let mut i: usize = 0;
    assert(s@.take(0) =~= Seq::<char>::empty());
    assert(done.deep_view().push(cur@) =~= split_pieces(s@.take(0), kind));
    while i < s.len()
        invariant
            i <= s@.len(),
            split_pieces(s@.take(i as int), kind) == done.deep_view().push(cur@),
        decreases s@.len() - i,
    {
        let c = s[i];
        let ghost prev = s@.take(i as int);
        assert(s@.take(i + 1).drop_last() =~= prev);
        assert(s@.take(i + 1).last() == c);
        if is_sep_exec(kind, c) {
            let ghost d0 = done.deep_view();
            let finished = cur;
            proof {
                lemma_chars_deep_view(&finished);
            }
            done.push(finished);
            cur = Vec::new();
            assert(done.deep_view() =~= d0.push(finished@));
            assert(done.deep_view().push(cur@) =~= d0.push(finished@).push(Seq::<char>::empty()));
        } else {
            let ghost c0 = cur@;
            cur.push(c);
            assert(done.deep_view().push(cur@) =~= done.deep_view().push(c0).update(
                done.deep_view().len() as int,
                c0.push(c),
            ));
        }
        i = i + 1;
    }
    assert(s@.take(s@.len() as int) =~= s@);
    let ghost d0 = done.deep_view();
    proof {
        lemma_chars_deep_view(&cur);
    }
    done.push(cur);
    assert(done.deep_view() =~= d0.push(cur@));
    done
}

// ---------------------------------------------------------------------
// Tokens
// ---------------------------------------------------------------------

pub proof fn lemma_chars_deep_view(v: &Vec<char>)
    ensures
        v.deep_view() == v@,
{
    assert(v.deep_view() =~= v@);
}

/// `toks` followed by `acc`, if `acc` is not empty.
pub open spec fn flush(toks: Seq<Seq<char>>, acc: Seq<char>) -> Seq<Seq<char>> {
    if acc.len() == 0 {
        toks
    } else {
        toks.push(acc)
    }
}

/// The longest non-empty word of `ws` that occurs in `s` at `i`; of two
/// of the same length, the first in `ws`.
pub open spec fn longest_match_at(s: Seq<char>, i: int, ws: Seq<Seq<char>>) -> Option<Seq<char>>
    decreases ws.len(),
{
    if ws.len() == 0 {
        None
    } else {
        let best = longest_match_at(s, i, ws.drop_last());
        let w = ws.last();
        if w.len() > 0 && occurs_at(s, w, i) && (best is None || best->0.len() < w.len()) {
            Some(w)
        } else {
            best
        }
    }
}

pub proof fn lemma_longest_match_occurs(s: Seq<char>, i: int, ws: Seq<Seq<char>>)
    ensures
        longest_match_at(s, i, ws) is Some ==> {
            let w = longest_match_at(s, i, ws)->0;
            w.len() > 0 && occurs_at(s, w, i) && ws.contains(w)
        },
    decreases ws.len(),
{
    if ws.len() > 0 {
        lemma_longest_match_occurs(s, i, ws.drop_last());
        let best = longest_match_at(s, i, ws.drop_last());
        if best is Some {
            let w = best->0;
            let k = choose|k: int| 0 <= k < ws.drop_last().len() && ws.drop_last()[k] == w;
            assert(ws[k] == w);
        }
        assert(ws[ws.len() - 1] == ws.last());
    }
}

/// The tokens of `s` from index `i` on, given the token `acc` being built
/// and the tokens `toks` already complete. A token ends at a separator
/// (white space or ASCII punctuation), where the text switches between
/// ASCII and other characters, and around a segmenting stop word, which
/// is a token of its own.
pub open spec fn tokens_from(s: Seq<char>, i: int, acc: Seq<char>, toks: Seq<Seq<char>>) -> Seq<
    Seq<char>,
>
    decreases s.len() - i,
{
    if i < 0 || i >= s.len() {
        flush(toks, acc)
    } else if is_sep(SepKind::WordBreak, s[i]) {
        tokens_from(s, i + 1, Seq::<char>::empty(), flush(toks, acc))
    } else if !is_ascii_char(s[i]) && longest_match_at(s, i, segment_stop_words()) is Some
        && longest_match_at(s, i, segment_stop_words())->0.len() > 0 && i + longest_match_at(
        s,
        i,
        segment_stop_words(),
    )->0.len() <= s.len() {
        let w = longest_match_at(s, i, segment_stop_words())->0;
        tokens_from(s, i + w.len(), Seq::<char>::empty(), flush(toks, acc).push(w))
    } else if acc.len() > 0 && is_ascii_char(acc.last()) != is_ascii_char(s[i]) {
        tokens_from(s, i + 1, seq![s[i]], flush(toks, acc))
    } else {
        tokens_from(s, i + 1, acc.push(s[i]), toks)
    }
}

/// The tokens of a query.
pub open spec fn query_tokens(s: Seq<char>) -> Seq<Seq<char>> {
    tokens_from(s, 0, Seq::<char>::empty(), Seq::<Seq<char>>::empty())
}

/// The longest segmenting stop word at `s[i..]`.
fn longest_segment_stop_at(s: &[char], i: usize) -> (r: Option<Vec<char>>)
    ensures
        match r {
            None => longest_match_at(s@, i as int, segment_stop_words()) is None,
            Some(w) => longest_match_at(s@, i as int, segment_stop_words()) == Some(w@),
        },
{
    let ghost ws = segment_stop_words();
    let mut best: Option<Vec<char>> = None;
    let mut k: usize = 0;
    assert(ws.take(0) =~= Seq::<Seq<char>>::empty());
    while k < 25
        invariant
            k <= 25,
            ws == segment_stop_words(),
            ws.len() == 25,
            match best {
                None => longest_match_at(s@, i as int, ws.take(k as int)) is None,
                Some(w) => longest_match_at(s@, i as int, ws.take(k as int)) == Some(w@),
            },
        decreases 25 - k,
    {
        let w = segment_stop_words_entry(k);
        assert(ws.take(k + 1).drop_last() =~= ws.take(k as int));
        assert(ws.take(k + 1).last() == ws[k as int]);
        let better = w.len() > 0 && occurs_at_exec(s, w.as_slice(), i) && match &best {
            None => true,
            Some(b) => b.len() < w.len(),
        };
        if better {
            best = Some(w);
        }
        k = k + 1;
    }
    assert(ws.take(25) =~= ws);
    best
}

fn flush_token(toks: &mut Vec<Vec<char>>, acc: Vec<char>)
    ensures
        final(toks).deep_view() == flush(old(toks).deep_view(), acc@),
{
    if acc.len() > 0 {
        let ghost d0 = toks.deep_view();
        proof {
            lemma_chars_deep_view(&acc);
        }
        toks.push(acc);
        assert(toks.deep_view() =~= d0.push(acc@));
    }
}

/// Cuts a query into tokens (see [`tokens_from`]).
pub fn tokenize_query(q: &str) -> (toks: Vec<Vec<char>>)
    ensures
        toks.deep_view() == query_tokens(q@),
{
    let s = to_chars(q);
    let mut toks: Vec<Vec<char>> = Vec::new();
    let mut acc: Vec<char> = Vec::new();
    let mut i: usize = 0;
    assert(toks.deep_view() =~= Seq::<Seq<char>>::empty());
    while i < s.len()
        invariant
            i <= s@.len(),
            s@ == q@,
            query_tokens(q@) == tokens_from(s@, i as int, acc@, toks.deep_view()),
        decreases s@.len() - i,
    {
        let c = s[i];
        if is_sep_exec(SepKind::WordBreak, c) {
            flush_token(&mut toks, acc);
            acc = Vec::new();
            i = i + 1;
        } else {
            let m = if !char_is_ascii(c) {
                longest_segment_stop_at(s.as_slice(), i)
            } else {
                None
            };
            proof {
                lemma_longest_match_occurs(s@, i as int, segment_stop_words());
            }
            match m {
                Some(w) => {
                    let n = w.len();
                    flush_token(&mut toks, acc);
                    let ghost d0 = toks.deep_view();
                    proof {
                        lemma_chars_deep_view(&w);
                    }
                    toks.push(w);
                    assert(toks.deep_view() =~= d0.push(w@));
                    acc = Vec::new();
                    i = i + n;
                },
                None => {
                    let switch = acc.len() > 0 && char_is_ascii(acc[acc.len() - 1])
                        != char_is_ascii(c);
                    if switch {
                        flush_token(&mut toks, acc);
                        acc = Vec::new();
                        acc.push(c);
                        assert(acc@ =~= seq![c]);
                    } else {
                        acc.push(c);
                    }
                    i = i + 1;
                },
            }
        }
    }
    flush_token(&mut toks, acc);
    toks
}

// ---------------------------------------------------------------------
// Keywords
// ---------------------------------------------------------------------

/// `ks` with `k` appended, unless it already holds `k`.
pub open spec fn add_unique(ks: Seq<Seq<char>>, k: Seq<char>) -> Seq<Seq<char>> {
    if ks.contains(k) {
        ks
    } else {
        ks.push(k)
    }
}

/// The first pair of `g` whose term is `k`, by its translation.
pub open spec fn glossary_lookup(k: Seq<char>, g: Seq<(Seq<char>, Seq<char>)>) -> Option<Seq<char>>
    decreases g.len(),
{
    if g.len() == 0 {
        None
    } else if g[0].0 == k {
        Some(g[0].1)
    } else {
        glossary_lookup(k, g.drop_first())
    }
}

/// One step of keyword extraction: a token of at least two characters is
/// lower-cased and added, then its glossary translation, if any.
pub open spec fn keyword_step(ks: Seq<Seq<char>>, t: Seq<char>) -> Seq<Seq<char>> {
    if t.len() <= 1 {
        ks
    } else {
        let k = lowercase(t);
        let ks1 = add_unique(ks, k);
        match glossary_lookup(k, keyword_glossary()) {
            Some(z) => add_unique(ks1, z),
            None => ks1,
        }
    }
}

/// The keywords of a token sequence, in order of first appearance.
pub open spec fn keywords_of_tokens(ts: Seq<Seq<char>>) -> Seq<Seq<char>>
    decreases ts.len(),
{
    if ts.len() == 0 {
        Seq::<Seq<char>>::empty()
    } else {
        keyword_step(keywords_of_tokens(ts.drop_last()), ts.last())
    }
}

/// The keywords of a query.
pub open spec fn query_keywords(q: Seq<char>) -> Seq<Seq<char>> {
    keywords_of_tokens(query_tokens(q))
}

/// Appends `k` to `v` unless `v` already holds it.
pub fn push_unique(v: &mut Vec<String>, k: String)
    ensures
        final(v).deep_view() == add_unique(old(v).deep_view(), k@),
{
    if !contains_string(v, &k) {
        let ghost d0 = v.deep_view();
        v.push(k);
        assert(v.deep_view() =~= d0.push(k@));
    }
}

/// The glossary translation of `k`, if any.
fn glossary_lookup_exec(k: &String) -> (r: Option<String>)
    ensures
        match r {
            None => glossary_lookup(k@, keyword_glossary()) is None,
            Some(z) => glossary_lookup(k@, keyword_glossary()) == Some(z@),
        },
{
    let kc = to_chars(k.as_str());
    let ghost g = keyword_glossary();
    let mut j: usize = 0;
    assert(g.skip(0) =~= g);
    while j < 5
        invariant
            j <= 5,
            g == keyword_glossary(),
            g.len() == 5,
            kc@ == k@,
            glossary_lookup(k@, g) == glossary_lookup(k@, g.skip(j as int)),
        decreases 5 - j,
    {
        let (term, tr) = keyword_glossary_entry(j);
        assert(g.skip(j as int)[0] == g[j as int]);
        assert(g.skip(j as int).drop_first() =~= g.skip(j + 1));
        if chars_eq(term.as_slice(), kc.as_slice()) {
            return Some(from_chars(tr.as_slice()));
        }
        j = j + 1;
    }
    assert(g.skip(5) =~= Seq::<(Seq<char>, Seq<char>)>::empty());
    None
}

/// The keywords of a query: its tokens of at least two characters, lower
/// cased, each once, in order of first appearance, each followed by its
/// glossary translation when it has one.
pub fn query_keywords_exec(query: &str) -> (ks: Vec<String>)
    ensures
        ks.deep_view() == query_keywords(query@),
{
    let toks = tokenize_query(query);
    let mut ks: Vec<String> = Vec::new();
    let mut j: usize = 0;
    assert(toks.deep_view().take(0) =~= Seq::<Seq<char>>::empty());
    assert(ks.deep_view() =~= Seq::<Seq<char>>::empty());
    while j < toks.len()
        invariant
            j <= toks@.len(),
            toks.deep_view() == query_tokens(query@),
            ks.deep_view() == keywords_of_tokens(toks.deep_view().take(j as int)),
        decreases toks@.len() - j,
    {
        let t = &toks[j];
        assert(toks.deep_view().take(j + 1).drop_last() =~= toks.deep_view().take(j as int));
        assert(toks.deep_view().take(j + 1).last() == t@);
        if t.len() > 1 {
            let ts = from_chars(t.as_slice());
            let k = to_lowercase(ts.as_str());
            let tr = glossary_lookup_exec(&k);
            push_unique(&mut ks, k);
            match tr {
                Some(z) => push_unique(&mut ks, z),
                None => {},
            }
        }
        j = j + 1;
    }
    assert(toks.deep_view().take(toks@.len() as int) =~= toks.deep_view());
    ks
}

// ---------------------------------------------------------------------
// Tags
// ---------------------------------------------------------------------

/// `t` without its leading `#` characters.
pub open spec fn strip_hashes(t: Seq<char>) -> Seq<char>
    decreases t.len(),
{
    if t.len() > 0 && t[0] == '#' {
        strip_hashes(t.drop_first())
    } else {
        t
    }
}

/// One step of tag extraction: a piece that starts with `#` gives a tag.
pub open spec fn tag_step(tags: Seq<Seq<char>>, p: Seq<char>) -> Seq<Seq<char>> {
    if p.len() > 0 && p[0] == '#' {
        add_unique(tags, strip_hashes(p))
    } else {
        tags
    }
}

pub open spec fn tags_of_pieces(ps: Seq<Seq<char>>) -> Seq<Seq<char>>
    decreases ps.len(),
{
    if ps.len() == 0 {
        Seq::<Seq<char>>::empty()
    } else {
        tag_step(tags_of_pieces(ps.drop_last()), ps.last())
    }
}

/// The tags of a query: the words that start with `#`, without the `#`,
/// each once, in order of first appearance.
pub open spec fn query_tags(q: Seq<char>) -> Seq<Seq<char>> {
    tags_of_pieces(split_pieces(q, SepKind::TagBreak))
}

fn strip_hashes_exec(t: &[char]) -> (r: Vec<char>)
    ensures
        r@ == strip_hashes(t@),
{
    let mut i: usize = 0;
    assert(t@.skip(0) =~= t@);
    while i < t.len() && t[i] == '#'
        invariant
            i <= t@.len(),
            strip_hashes(t@) == strip_hashes(t@.skip(i as int)),
        decreases t@.len() - i,
    {
        assert(t@.skip(i as int).drop_first() =~= t@.skip(i + 1));
        i = i + 1;
    }
    let mut r: Vec<char> = Vec::new();
    let mut j: usize = i;
    while j < t.len()
        invariant
            i <= j <= t@.len(),
            r@ == t@.subrange(i as int, j as int),
        decreases t@.len() - j,
    {
        r.push(t[j]);
        assert(t@.subrange(i as int, j as int).push(t@[j as int]) =~= t@.subrange(
            i as int,
            j + 1,
        ));
        j = j + 1;
    }
    assert(r@ =~= t@.skip(i as int));
    r
}

/// The tags of a query (see [`query_tags`]).
pub fn query_tags_exec(query: &str) -> (tags: Vec<String>)
    ensures
        tags.deep_view() == query_tags(query@),
{
    let s = to_chars(query);
    let ps = split_on(s.as_slice(), SepKind::TagBreak);
    let mut tags: Vec<String> = Vec::new();
    let mut j: usize = 0;
    assert(ps.deep_view().take(0) =~= Seq::<Seq<char>>::empty());
    assert(tags.deep_view() =~= Seq::<Seq<char>>::empty());
    while j < ps.len()
        invariant
            j <= ps@.len(),
            ps.deep_view() == split_pieces(query@, SepKind::TagBreak),
            tags.deep_view() == tags_of_pieces(ps.deep_view().take(j as int)),
        decreases ps@.len() - j,
    {
        let p = &ps[j];
        assert(ps.deep_view().take(j + 1).drop_last() =~= ps.deep_view().take(j as int));
        assert(ps.deep_view().take(j + 1).last() == p@);
        if p.len() > 0 && p[0] == '#' {
            let t = strip_hashes_exec(p.as_slice());
            push_unique(&mut tags, from_chars(t.as_slice()));
        }
        j = j + 1;
    }
    assert(ps.deep_view().take(ps@.len() as int) =~= ps.deep_view());
    tags
}

// ---------------------------------------------------------------------
// Semantic content
// ---------------------------------------------------------------------

/// Number of pieces whose UTF-8 encoding is longer than two bytes.
pub open spec fn count_long_pieces(ps: Seq<Seq<char>>) -> nat
    decreases ps.len(),
{
    if ps.len() == 0 {
        0
    } else {
        count_long_pieces(ps.drop_last()) + if utf8_len(ps.last()) > 2 {
            1nat
        } else {
            0nat
        }
    }
}

/// A query has semantic content when at least two of its white-space
/// separated words are longer than two bytes.
pub open spec fn has_semantic(q: Seq<char>) -> bool {
    count_long_pieces(split_pieces(q, SepKind::Whitespace)) >= 2
}

/// Whether the UTF-8 encoding of `v` is longer than `n` bytes.
pub fn utf8_len_exceeds(v: &[char], n: usize) -> (r: bool)
    requires
        n < usize::MAX - 4,
    ensures
        r == (utf8_len(v@) > n),
{
    let mut total: usize = 0;
    let mut i: usize = 0;
    assert(v@.take(0) =~= Seq::<char>::empty());
    while i < v.len()
        invariant
            i <= v@.len(),
            n < usize::MAX - 4,
            total == utf8_len(v@.take(i as int)),
            total <= n,
        decreases v@.len() - i,
    {
        proof {
            lemma_utf8_len_push(v@.take(i as int), v@[i as int]);
            assert(v@.take(i as int).push(v@[i as int]) =~= v@.take(i + 1));
        }
        total = total + char_utf8_width(v[i]);
        i = i + 1;
        if total > n {
            proof {
                lemma_utf8_len_prefix_le(v@, i as int);
            }
            return true;
        }
    }
    assert(v@.take(v@.len() as int) =~= v@);
    false
}

/// The UTF-8 length of a prefix is at most that of the whole.
pub proof fn lemma_utf8_len_prefix_le(s: Seq<char>, k: int)
    requires
        0 <= k <= s.len(),
    ensures
        utf8_len(s.take(k)) <= utf8_len(s),
    decreases s.len() - k,
{
    if k < s.len() {
        lemma_utf8_len_push(s.take(k), s[k]);
        assert(s.take(k).push(s[k]) =~= s.take(k + 1));
        lemma_utf8_len_prefix_le(s, k + 1);
    } else {
        assert(s.take(k) =~= s);
    }
}

/// Whether a query has semantic content (see [`has_semantic`]).
pub fn has_semantic_exec(query: &str) -> (r: bool)
    ensures
        r == has_semantic(query@),
{
    let s = to_chars(query);
    let ps = split_on(s.as_slice(), SepKind::Whitespace);
    let mut count: usize = 0;
    let mut j: usize = 0;
    assert(ps.deep_view().take(0) =~= Seq::<Seq<char>>::empty());
    while j < ps.len()
        invariant
            j <= ps@.len(),
            ps.deep_view() == split_pieces(query@, SepKind::Whitespace),
            count == count_long_pieces(ps.deep_view().take(j as int)),
            count <= j,
        decreases ps@.len() - j,
    {
        let long = utf8_len_exceeds(ps[j].as_slice(), 2);
        proof {
            let dv = ps.deep_view();
            assert(dv.take(j + 1).drop_last() =~= dv.take(j as int));
            assert(dv.take(j + 1).last() == dv[j as int]);
            assert(dv[j as int] == ps@[j as int].deep_view());
            lemma_chars_deep_view(&ps@[j as int]);
            assert(count_long_pieces(dv.take(j + 1)) == count_long_pieces(dv.take(j as int)) + if long {
                1nat
            } else {
                0nat
            });
        }
        if long {
            count = count + 1;
        }
        j = j + 1;
    }
    assert(ps.deep_view().take(ps@.len() as int) =~= ps.deep_view());
    count >= 2
}

// ---------------------------------------------------------------------
// Stop words, spaces and abbreviations
// ---------------------------------------------------------------------

pub proof fn lemma_replace_len_le(s: Seq<char>, pat: Seq<char>, rep: Seq<char>)
    requires
        rep.len() <= pat.len(),
    ensures
        replace_all(s, pat, rep).len() <= s.len(),
    decreases s.len(),
{
    if pat.len() == 0 || s.len() < pat.len() {
    } else if s.take(pat.len() as int) == pat {
        lemma_replace_len_le(s.skip(pat.len() as int), pat, rep);
    } else {
        lemma_replace_len_le(s.drop_first(), pat, rep);
    }
}

/// Replacing an occurring pattern by something shorter shortens the text.
pub proof fn lemma_replace_shrinks(s: Seq<char>, pat: Seq<char>, rep: Seq<char>)
    requires
        rep.len() < pat.len(),
        contains_seq(s, pat),
    ensures
        replace_all(s, pat, rep).len() < s.len(),
    decreases s.len(),
{
    let i = choose|i: int| occurs_at(s, pat, i);
    if s.take(pat.len() as int) == pat {
        lemma_replace_len_le(s.skip(pat.len() as int), pat, rep);
    } else {
        assert(i != 0) by {
            if i == 0 {
                assert(s.subrange(0, pat.len() as int) =~= s.take(pat.len() as int));
            }
        }
        assert(occurs_at(s.drop_first(), pat, i - 1)) by {
            assert(s.drop_first().subrange(i - 1, i - 1 + pat.len()) =~= s.subrange(
                i,
                i + pat.len(),
            ));
        }
        lemma_replace_shrinks(s.drop_first(), pat, rep);
    }
}

/// `s` after repeatedly replacing two spaces by one, until no two spaces
/// are adjacent.
pub open spec fn collapse_spaces(s: Seq<char>) -> Seq<char>
    decreases s.len(),
{
    if contains_seq(s, seq![' ', ' ']) {
        proof {
            lemma_replace_shrinks(s, seq![' ', ' '], seq![' ']);
        }
        collapse_spaces(replace_all(s, seq![' ', ' '], seq![' ']))
    } else {
        s
    }
}

/// Replaces two adjacent spaces by one until none are left.
pub fn collapse_spaces_exec(s: &[char]) -> (r: Vec<char>)
    ensures
        r@ == collapse_spaces(s@),
{
    let two: Vec<char> = vec![' ', ' '];
    let one: Vec<char> = vec![' '];
    assert(two@ =~= seq![' ', ' ']);
    assert(one@ =~= seq![' ']);
    let mut cur: Vec<char> = copy_chars(s);
    while contains_chars(cur.as_slice(), two.as_slice())
        invariant
            two@ == seq![' ', ' '],
            one@ == seq![' '],
            collapse_spaces(cur@) == collapse_spaces(s@),
        decreases cur@.len(),
    {
        proof {
            lemma_replace_shrinks(cur@, two@, one@);
        }
        cur = replace_chars(cur.as_slice(), two.as_slice(), one.as_slice());
    }
    cur
}

/// The result of one pass of stop-word removal over the words `ws`: the
/// text after replacing each " word " by " ", and whether some "word "
/// was still found after its replacement.
pub open spec fn stop_pass(s: Seq<char>, ws: Seq<Seq<char>>) -> (Seq<char>, bool)
    decreases ws.len(),
{
    if ws.len() == 0 {
        (s, false)
    } else {
        let p = stop_pass(s, ws.drop_last());
        let w = ws.last();
        let r = replace_all(p.0, seq![' '] + w + seq![' '], seq![' ']);
        (r, p.1 || contains_seq(r, w + seq![' ']))
    }
}

/// A query without its stop words, trimmed; `None` when nothing is left.
pub open spec fn without_stop_words(q: Seq<char>) -> Option<Seq<char>> {
    let p = stop_pass(q, stop_words());
    let r = if p.1 {
        collapse_spaces(p.0)
    } else {
        p.0
    };
    if trim(r).len() == 0 {
        None
    } else {
        Some(trim(r))
    }
}

/// A query in normal form: no two adjacent spaces, no surrounding white
/// space.
pub open spec fn normalized(q: Seq<char>) -> Seq<char> {
    trim(collapse_spaces(q))
}

/// A word with its abbreviation expanded: the expansion given by the first
/// entry of [`abbreviations`] for that word, or the word itself.
pub open spec fn expand_word(w: Seq<char>) -> Seq<char> {
    match glossary_lookup(w, abbreviations()) {
        Some(x) => x,
        None => w,
    }
}

/// The rest `s` of a text expanded word by word, words being separated by
/// single spaces: `out` is what is already written, `cur` the word being
/// read.
pub open spec fn expand_from(s: Seq<char>, out: Seq<char>, cur: Seq<char>) -> Seq<char>
    decreases s.len(),
{
    if s.len() == 0 {
        out + expand_word(cur)
    } else if s[0] == ' ' {
        expand_from(s.drop_first(), out + expand_word(cur) + seq![' '], Seq::empty())
    } else {
        expand_from(s.drop_first(), out, cur.push(s[0]))
    }
}

/// A query with its abbreviations expanded: each word (the text between
/// spaces) that is an abbreviation is replaced by its expansion; every
/// other character stays.
pub open spec fn expanded(q: Seq<char>) -> Seq<char> {
    expand_from(q, Seq::empty(), Seq::empty())
}

/// The text that [`QueryOptimizer::optimize_query`] leaves in the query.
pub open spec fn optimized(q: Seq<char>) -> Seq<char> {
    let cleaned = match without_stop_words(q) {
        Some(c) => c,
        None => q,
    };
    expanded(normalized(cleaned))
}

/// The kind of query that [`QueryOptimizer::analyze_query`] recognises.
pub open spec fn intent_type(q: Seq<char>) -> QueryType {
    if query_tags(q).len() > 0 {
        QueryType::Tag
    } else if has_semantic(q) {
        if query_keywords(q).len() > 1 {
            QueryType::Hybrid
        } else {
            QueryType::Semantic
        }
    } else {
        QueryType::Keyword
    }
}

// ---------------------------------------------------------------------
// Order of suggestions
// ---------------------------------------------------------------------

/// Lexicographic order of character sequences by code point (the order of
/// `String`'s `Ord`, since UTF-8 preserves code-point order).
pub open spec fn lex_lt(a: Seq<char>, b: Seq<char>) -> bool
    decreases a.len(),
{
    if a.len() == 0 {
        b.len() > 0
    } else if b.len() == 0 {
        false
    } else if a[0] != b[0] {
        (a[0] as u32) < (b[0] as u32)
    } else {
        lex_lt(a.drop_first(), b.drop_first())
    }
}

/// Each element comes strictly before the next in lexicographic order.
pub open spec fn strictly_sorted(s: Seq<Seq<char>>) -> bool {
    forall|i: int, j: int| 0 <= i < j < s.len() ==> lex_lt(s[i], s[j])
}

pub proof fn lemma_lex_irreflexive(a: Seq<char>)
    ensures
        !lex_lt(a, a),
    decreases a.len(),
{
    if a.len() > 0 {
        lemma_lex_irreflexive(a.drop_first());
    }
}

pub proof fn lemma_lex_total(a: Seq<char>, b: Seq<char>)
    ensures
        a == b || lex_lt(a, b) || lex_lt(b, a),
    decreases a.len(),
{
    if a.len() > 0 && b.len() > 0 && a[0] == b[0] {
        lemma_lex_total(a.drop_first(), b.drop_first());
        if a.drop_first() == b.drop_first() {
            assert(a =~= seq![a[0]] + a.drop_first());
            assert(b =~= seq![b[0]] + b.drop_first());
        }
    } else if a.len() == 0 && b.len() == 0 {
        assert(a =~= b);
    } else if a.len() > 0 && b.len() > 0 {
        let ua = a[0] as u32;
        let ub = b[0] as u32;
        vstd::utf8::char_u32_cast(a[0], ua);
        vstd::utf8::char_u32_cast(b[0], ub);
        assert(ua != ub);
    }
}

pub proof fn lemma_lex_trans(a: Seq<char>, b: Seq<char>, c: Seq<char>)
    requires
        lex_lt(a, b),
        lex_lt(b, c),
    ensures
        lex_lt(a, c),
    decreases a.len(),
{
    if a.len() > 0 && b.len() > 0 && c.len() > 0 && a[0] == b[0] && b[0] == c[0] {
        lemma_lex_trans(a.drop_first(), b.drop_first(), c.drop_first());
    }
}

/// Whether `a` comes strictly before `b`.
pub fn lex_less(a: &[char], b: &[char]) -> (r: bool)
    ensures
        r == lex_lt(a@, b@),
{
    let mut i: usize = 0;
    assert(a@.skip(0) =~= a@);
    assert(b@.skip(0) =~= b@);
    while i < a.len() && i < b.len() && a[i] == b[i]
        invariant
            i <= a@.len(),
            i <= b@.len(),
            lex_lt(a@, b@) == lex_lt(a@.skip(i as int), b@.skip(i as int)),
        decreases a@.len() - i,
    {
        assert(a@.skip(i as int).drop_first() =~= a@.skip(i + 1));
        assert(b@.skip(i as int).drop_first() =~= b@.skip(i + 1));
        i = i + 1;
    }
    if i == a.len() {
        i < b.len()
    } else if i == b.len() {
        false
    } else {
        (a[i] as u32) < (b[i] as u32)
    }
}

/// `v` in strictly increasing lexicographic order.
pub fn sort_distinct(v: &Vec<String>) -> (r: Vec<String>)
    requires
        v.deep_view().no_duplicates(),
    ensures
        r.deep_view().to_set() == v.deep_view().to_set(),
        r@.len() == v@.len(),
        strictly_sorted(r.deep_view()),
{
    let mut r: Vec<String> = Vec::new();
    let mut i: usize = 0;
    assert(v.deep_view().take(0).to_set() =~= r.deep_view().to_set());
    while i < v.len()
        invariant
            i <= v@.len(),
            v.deep_view().no_duplicates(),
            r.deep_view().to_set() == v.deep_view().take(i as int).to_set(),
            r@.len() == i,
            strictly_sorted(r.deep_view()),
        decreases v@.len() - i,
    {
        let x = v[i].clone();
        let xc = to_chars(x.as_str());
        let ghost rv = r.deep_view();
        proof {
            assert(!rv.contains(x@)) by {
                if rv.contains(x@) {
                    assert(rv.to_set().contains(x@));
                    let k = choose|k: int| 0 <= k < i && v.deep_view().take(i as int)[k] == x@;
                    assert(v.deep_view()[k] == v.deep_view()[i as int]);
                }
            }
        }
        let mut p: usize = 0;
        while p < r.len() && !lex_less(xc.as_slice(), to_chars(r[p].as_str()).as_slice())
            invariant
                p <= r@.len(),
                rv == r.deep_view(),
                xc@ == x@,
                forall|k: int| 0 <= k < p ==> !lex_lt(x@, rv[k]),
            decreases r@.len() - p,
        {
            p = p + 1;
        }
        r.insert(p, x);
        proof {
            let nv = r.deep_view();
            assert(nv =~= rv.insert(p as int, x@));
            assert forall|a: int, b: int| 0 <= a < b < nv.len() implies lex_lt(nv[a], nv[b]) by {
                if b < p {
                } else if b == p {
                    lemma_lex_total(x@, rv[a]);
                } else if a == p {
                    if b - 1 > p {
                        lemma_lex_trans(x@, rv[p as int], rv[b - 1]);
                    }
                } else if a < p {
                    lemma_lex_total(x@, rv[a]);
                    if b - 1 == p as int {
                    } else {
                        lemma_lex_trans(rv[a], x@, rv[p as int]);
                        lemma_lex_trans(rv[a], rv[p as int], rv[b - 1]);
                    }
                    assert(nv[b] == rv[b - 1]);
                } else {
                    assert(nv[a] == rv[a - 1]);
                    assert(nv[b] == rv[b - 1]);
                }
            }
            assert(v.deep_view().take(i + 1) =~= v.deep_view().take(i as int).push(x@));
            assert(nv.to_set() =~= v.deep_view().take(i + 1).to_set()) by {
                assert forall|e| nv.to_set().contains(e) <==> v.deep_view().take(
                    i + 1,
                ).to_set().contains(e) by {
                    if nv.contains(e) {
                        let k = choose|k: int| 0 <= k < nv.len() && nv[k] == e;
                        if k < p {
                            assert(rv[k] == e);
                            assert(rv.to_set().contains(e));
                        } else if k > p {
                            assert(rv[k - 1] == e);
                            assert(rv.to_set().contains(e));
                        }
                    }
                    if v.deep_view().take(i + 1).contains(e) {
                        if e != x@ {
                            assert(v.deep_view().take(i as int).push(x@).contains(e));
                            let k = choose|k: int|
                                0 <= k < i + 1 && v.deep_view().take(i as int).push(x@)[k] == e;
                            assert(v.deep_view().take(i as int)[k] == e);
                            assert(v.deep_view().take(i as int).to_set().contains(e));
                            assert(rv.contains(e));
                            let m = choose|m: int| 0 <= m < rv.len() && rv[m] == e;
                            if m < p {
                                assert(nv[m] == e);
                            } else {
                                assert(nv[m + 1] == e);
                            }
                        } else {
                            assert(nv[p as int] == e);
                        }
                    }
                }
            }
        }
        i = i + 1;
    }
    assert(v.deep_view().take(v@.len() as int) =~= v.deep_view());
    r
}

/// The keywords picked as suggestions: in the order of `ks`, those that
/// start with `prefix` and are not picked yet, until at least `limit` are
/// picked.
pub open spec fn pick_suggestions(
    ks: Seq<Seq<char>>,
    prefix: Seq<char>,
    limit: nat,
    acc: Seq<Seq<char>>,
) -> Seq<Seq<char>>
    decreases ks.len(),
{
    if ks.len() == 0 {
        acc
    } else if starts_with(ks[0], prefix) && !acc.contains(ks[0]) {
        let a2 = acc.push(ks[0]);
        if a2.len() >= limit {
            a2
        } else {
            pick_suggestions(ks.drop_first(), prefix, limit, a2)
        }
    } else {
        pick_suggestions(ks.drop_first(), prefix, limit, acc)
    }
}

proof fn lemma_picks_keep(ks: Seq<Seq<char>>, prefix: Seq<char>, limit: nat, acc: Seq<Seq<char>>, y: Seq<char>)
    requires
        acc.contains(y),
    ensures
        pick_suggestions(ks, prefix, limit, acc).contains(y),
    decreases ks.len(),
{
    if ks.len() > 0 {
        if starts_with(ks[0], prefix) && !acc.contains(ks[0]) {
            let a2 = acc.push(ks[0]);
            let i = choose|i: int| 0 <= i < acc.len() && acc[i] == y;
            assert(a2[i] == y);
            if a2.len() < limit {
                lemma_picks_keep(ks.drop_first(), prefix, limit, a2, y);
            }
        } else {
            lemma_picks_keep(ks.drop_first(), prefix, limit, acc, y);
        }
    }
}

proof fn lemma_picks_find(ks: Seq<Seq<char>>, prefix: Seq<char>, limit: nat, acc: Seq<Seq<char>>, x: Seq<char>)
    requires
        ks.contains(x),
        starts_with(x, prefix),
        acc.len() + ks.len() <= limit,
    ensures
        pick_suggestions(ks, prefix, limit, acc).contains(x),
    decreases ks.len(),
{
    if ks[0] == x {
        if acc.contains(x) {
            lemma_picks_keep(ks.drop_first(), prefix, limit, acc, x);
        } else {
            let a2 = acc.push(x);
            assert(a2[acc.len() as int] == x);
            lemma_picks_keep(ks.drop_first(), prefix, limit, a2, x);
        }
    } else {
        let i = choose|i: int| 0 <= i < ks.len() && ks[i] == x;
        assert(ks.drop_first()[i - 1] == x);
        assert(ks.len() >= 2);
        if starts_with(ks[0], prefix) && !acc.contains(ks[0]) {
            lemma_picks_find(ks.drop_first(), prefix, limit, acc.push(ks[0]), x);
        } else {
            lemma_picks_find(ks.drop_first(), prefix, limit, acc, x);
        }
    }
}

/// A keyword once added is then suggested for itself: the list with it
/// (see [`add_unique`]) holds it, suggestions for it as the prefix pick it
/// whenever the limit is at least the list's length (as `usize::MAX`
/// always is, see [`QueryOptimizer::lemma_lists_fit`]), and adding it
/// again changes nothing.
pub proof fn law_added_keyword_suggested(ks: Seq<Seq<char>>, k: Seq<char>, limit: nat)
    ensures
        add_unique(ks, k).contains(k),
        add_unique(add_unique(ks, k), k) == add_unique(ks, k),
        add_unique(ks, k).len() <= limit ==> pick_suggestions(add_unique(ks, k), k, limit, Seq::empty()).contains(k),
{
    let ks2 = add_unique(ks, k);
    if !ks.contains(k) {
        assert(ks2[ks.len() as int] == k);
    }
    assert(starts_with(k, k)) by {
        assert(k.take(k.len() as int) =~= k);
    }
    if ks2.len() <= limit {
        lemma_picks_find(ks2, k, limit, Seq::empty(), k);
    }
}

/// After `add_keyword(k)`, asking for suggestions for `k` with no
/// practical limit (`usize::MAX`) gives the lower-cased `k` among them,
/// and adding `k` once more leaves the keywords as they are. `before` and
/// `after` are the optimizer before and after the call, as its contract
/// relates them.
pub proof fn law_add_keyword_then_suggest(before: QueryOptimizer, after: QueryOptimizer, k: Seq<char>)
    requires
        after.keyword_list() == add_unique(before.keyword_list(), lowercase(k)),
    ensures
        after.keyword_list().contains(lowercase(k)),
        pick_suggestions(after.keyword_list(), lowercase(k), usize::MAX as nat, Seq::empty()).contains(
            lowercase(k),
        ),
        add_unique(after.keyword_list(), lowercase(k)) == after.keyword_list(),
{
    after.lemma_lists_fit();
    law_added_keyword_suggested(before.keyword_list(), lowercase(k), usize::MAX as nat);
}

pub proof fn lemma_pick_distinct(
    ks: Seq<Seq<char>>,
    prefix: Seq<char>,
    limit: nat,
    acc: Seq<Seq<char>>,
)
    requires
        acc.no_duplicates(),
    ensures
        pick_suggestions(ks, prefix, limit, acc).no_duplicates(),
    decreases ks.len(),
{
    if ks.len() > 0 {
        if starts_with(ks[0], prefix) && !acc.contains(ks[0]) {
            let a2 = acc.push(ks[0]);
            assert(a2.no_duplicates()) by {
                assert forall|a: int, b: int| 0 <= a < b < a2.len() implies a2[a] != a2[b] by {
                    if b == acc.len() {
                        assert(acc.contains(acc[a]));
                    }
                }
            }
            if a2.len() < limit {
                lemma_pick_distinct(ks.drop_first(), prefix, limit, a2);
            }
        } else {
            lemma_pick_distinct(ks.drop_first(), prefix, limit, acc);
        }
    }
}

// ---------------------------------------------------------------------
// Query intent and the optimizer
// ---------------------------------------------------------------------

/// The kind of a query.
#[derive(Debug, Clone, Copy, PartialEq, Eq, Structural)]
pub enum QueryType {
    /// Keyword search.
    Keyword,
    /// Semantic search.
    Semantic,
    /// Keyword and semantic search.
    Hybrid,
    /// A time-range query.
    TimeRange,
    /// A file-path query.
    FilePath,
    /// A tag query.
    Tag,
}

/// A time range, in seconds since the epoch.
#[derive(Debug, Clone, Copy, PartialEq, Eq, Structural)]
pub struct TimeRange {
    pub start: i64,
    pub end: i64,
    pub relative: bool,
}

/// What a query asks for.
#[derive(Debug, Clone)]
pub struct QueryIntent {
    pub query_type: QueryType,
    pub keywords: Vec<String>,
    pub semantic_query: Option<String>,
    pub time_range: Option<TimeRange>,
    pub file_path: Option<String>,
    pub tags: Vec<String>,
    pub entity: Option<String>,
    pub action: Option<String>,
}

/// The intent that [`QueryOptimizer::analyze_query`] finds in `q`.
pub open spec fn is_intent_of(intent: QueryIntent, q: Seq<char>) -> bool {
    &&& intent.keywords.deep_view() == query_keywords(q)
    &&& intent.tags.deep_view() == query_tags(q)
    &&& intent.time_range is None
    &&& intent.file_path is None
    &&& intent.entity is None
    &&& intent.action is None
    &&& (if has_semantic(q) {
        intent.semantic_query is Some && intent.semantic_query->0@ == q
    } else {
        intent.semantic_query is None
    })
    &&& intent.query_type == intent_type(q)
}

/// The kind of an analysed query follows from what the analysis found: a
/// query with tags is a tag query; one without tags but with semantic
/// content is hybrid exactly when it has more than one keyword and
/// semantic otherwise; one with neither is a keyword query.
pub proof fn law_intent_kind_follows_findings(intent: QueryIntent, q: Seq<char>)
    requires
        is_intent_of(intent, q),
    ensures
        intent.tags@.len() > 0 ==> intent.query_type == QueryType::Tag,
        intent.tags@.len() == 0 && intent.semantic_query is Some ==> (intent.query_type == QueryType::Hybrid
            <==> intent.keywords@.len() > 1),
        intent.tags@.len() == 0 && intent.semantic_query is Some ==> (intent.query_type == QueryType::Semantic
            <==> intent.keywords@.len() <= 1),
        intent.tags@.len() == 0 && intent.semantic_query is None ==> intent.query_type == QueryType::Keyword,
{
    assert(intent.tags@.len() == intent.tags.deep_view().len());
    assert(intent.keywords@.len() == intent.keywords.deep_view().len());
}

/// Keywords, entities and tags seen in earlier queries, used for
/// suggestions; each list holds no string twice.
pub struct QueryOptimizer {
    keywords: Vec<String>,
    entities: Vec<String>,
    tags: Vec<String>,
}

/// The keywords learnt from the keywords `ks` of a query.
pub open spec fn learn_all(known: Seq<Seq<char>>, ks: Seq<Seq<char>>) -> Seq<Seq<char>>
    decreases ks.len(),
{
    if ks.len() == 0 {
        known
    } else {
        add_unique(learn_all(known, ks.drop_last()), lowercase(ks.last()))
    }
}

pub proof fn lemma_add_unique_distinct(ks: Seq<Seq<char>>, k: Seq<char>)
    requires
        ks.no_duplicates(),
    ensures
        add_unique(ks, k).no_duplicates(),
        add_unique(ks, k).contains(k),
        forall|x: Seq<char>| ks.contains(x) ==> add_unique(ks, k).contains(x),
{
    if !ks.contains(k) {
        let r = ks.push(k);
        assert forall|a: int, b: int| 0 <= a < b < r.len() implies r[a] != r[b] by {
            if b == ks.len() {
                assert(ks.contains(ks[a]));
            }
        }
        assert(r[ks.len() as int] == k);
        assert forall|x: Seq<char>| ks.contains(x) implies r.contains(x) by {
            let m = choose|m: int| 0 <= m < ks.len() && ks[m] == x;
            assert(r[m] == x);
        }
    }
}

impl QueryOptimizer {
    #[verifier::type_invariant]
    spec fn lists_distinct(self) -> bool {
        &&& self.keywords.deep_view().no_duplicates()
        &&& self.entities.deep_view().no_duplicates()
        &&& self.tags.deep_view().no_duplicates()
    }

    /// The keywords learnt so far, in the order learnt.
    pub closed spec fn keyword_list(self) -> Seq<Seq<char>> {
        self.keywords.deep_view()
    }

    /// The lists learnt are held in memory, so none is longer than
    /// `usize::MAX`.
    pub proof fn lemma_lists_fit(&self)
        ensures
            self.keyword_list().len() <= usize::MAX,
            self.entity_list().len() <= usize::MAX,
            self.tag_list().len() <= usize::MAX,
    {
        assert(self.keywords.deep_view().len() == self.keywords@.len());
        assert(self.entities.deep_view().len() == self.entities@.len());
        assert(self.tags.deep_view().len() == self.tags@.len());
        assert(self.keywords@.len() == self.keywords.len());
        assert(self.entities@.len() == self.entities.len());
        assert(self.tags@.len() == self.tags.len());
    }

    /// The entities learnt so far, in the order learnt.
    pub closed spec fn entity_list(self) -> Seq<Seq<char>> {
        self.entities.deep_view()
    }

    /// The tags learnt so far, in the order learnt.
    pub closed spec fn tag_list(self) -> Seq<Seq<char>> {
        self.tags.deep_view()
    }

    /// An optimizer that knows no keyword, entity or tag.
    pub fn new() -> (o: Self)
        ensures
            o.keyword_list() == Seq::<Seq<char>>::empty(),
            o.entity_list() == Seq::<Seq<char>>::empty(),
            o.tag_list() == Seq::<Seq<char>>::empty(),
    {
        let o = QueryOptimizer { keywords: Vec::new(), entities: Vec::new(), tags: Vec::new() };
        assert(o.keywords.deep_view() =~= Seq::<Seq<char>>::empty());
        assert(o.entities.deep_view() =~= Seq::<Seq<char>>::empty());
        assert(o.tags.deep_view() =~= Seq::<Seq<char>>::empty());
        o
    }

    /// Recognises what a query asks for: its keywords and tags, whether it
    /// has semantic content, and its kind. A tag query stays a tag query
    /// even when its words carry semantic content.
    pub fn analyze_query(&self, query: &str) -> (intent: QueryIntent)
        ensures
            is_intent_of(intent, query@),
    {
        let mut intent = QueryIntent {
            query_type: QueryType::Keyword,
            keywords: Vec::new(),
            semantic_query: None,
            time_range: None,
            file_path: None,
            tags: Vec::new(),
            entity: None,
            action: None,
        };
        let keywords = self.extract_keywords(query);
        let n_keywords = keywords.len();
        intent.keywords = keywords;
        if let Some(time_range) = self.extract_time_range(query) {
            intent.time_range = Some(time_range);
            intent.query_type = QueryType::TimeRange;
        }
        if let Some(file_path) = self.extract_file_path(query) {
            intent.file_path = Some(file_path);
            intent.query_type = QueryType::FilePath;
        }
        let tags = self.extract_tags(query);
        let has_tags = tags.len() > 0;
        intent.tags = tags;
        if has_tags {
            intent.query_type = QueryType::Tag;
        }
        if let Some(entity) = self.extract_entity(query) {
            intent.entity = Some(entity);
        }
        if let Some(action) = self.extract_action(query) {
            intent.action = Some(action);
        }
        if self.has_semantic_content(query) {
            intent.semantic_query = Some(owned(query));
            if intent.query_type == QueryType::Keyword {
                if n_keywords > 1 {
                    intent.query_type = QueryType::Hybrid;
                } else {
                    intent.query_type = QueryType::Semantic;
                }
            }
        }
        intent
    }

    /// Analyses a query, then rewrites it: stop words removed (unless
    /// nothing would be left), spaces normalised, abbreviations expanded.
    /// The intent is that of the query before rewriting.
    pub fn optimize_query(&self, query: &mut String) -> (intent: QueryIntent)
        ensures
            is_intent_of(intent, old(query)@),
            final(query)@ == optimized(old(query)@),
    {
        let intent = self.analyze_query(query.as_str());
        if let Some(cleaned) = self.remove_stop_words(query.as_str()) {
            *query = cleaned;
        }
        self.normalize_query(query);
        self.expand_abbreviations(query);
        intent
    }

    /// The keywords of a query (see [`query_keywords`]).
    pub fn extract_keywords(&self, query: &str) -> (ks: Vec<String>)
        ensures
            ks.deep_view() == query_keywords(query@),
    {
        query_keywords_exec(query)
    }

    /// Time ranges are not recognised in queries.
    pub fn extract_time_range(&self, query: &str) -> (r: Option<TimeRange>)
        ensures
            r is None,
    {
        None
    }

    /// File paths are not recognised in queries.
    pub fn extract_file_path(&self, query: &str) -> (r: Option<String>)
        ensures
            r is None,
    {
        None
    }

    /// The tags of a query (see [`query_tags`]).
    pub fn extract_tags(&self, query: &str) -> (tags: Vec<String>)
        ensures
            tags.deep_view() == query_tags(query@),
    {
        query_tags_exec(query)
    }

    /// Entities are not recognised in queries.
    pub fn extract_entity(&self, query: &str) -> (r: Option<String>)
        ensures
            r is None,
    {
        None
    }

    /// Actions are not recognised in queries.
    pub fn extract_action(&self, query: &str) -> (r: Option<String>)
        ensures
            r is None,
    {
        None
    }

    /// Whether a query has semantic content (see [`has_semantic`]).
    pub fn has_semantic_content(&self, query: &str) -> (r: bool)
        ensures
            r == has_semantic(query@),
    {
        has_semantic_exec(query)
    }

    /// The query without stop words (see [`without_stop_words`]).
    pub fn remove_stop_words(&self, query: &str) -> (r: Option<String>)
        ensures
            match r {
                None => without_stop_words(query@) is None,
                Some(c) => without_stop_words(query@) == Some(c@),
            },
    {
        let ghost ws = stop_words();
        let mut result = owned(query);
        let mut removed = false;
        let mut k: usize = 0;
        assert(ws.take(0) =~= Seq::<Seq<char>>::empty());
        while k < 61
            invariant
                k <= 61,
                ws == stop_words(),
                ws.len() == 61,
                stop_pass(query@, ws.take(k as int)) == (result@, removed),
            decreases 61 - k,
        {
            let w = stop_words_entry(k);
            assert(ws.take(k + 1).drop_last() =~= ws.take(k as int));
            assert(ws.take(k + 1).last() == w@);
            let mut pat: Vec<char> = Vec::new();
            pat.push(' ');
            let mut m: usize = 0;
            while m < w.len()
                invariant
                    m <= w@.len(),
                    pat@ == seq![' '] + w@.take(m as int),
                decreases w@.len() - m,
            {
                pat.push(w[m]);
                assert(seq![' '] + w@.take(m as int) + seq![w@[m as int]] =~= seq![' '] + w@.take(
                    m + 1,
                ));
                m = m + 1;
            }
            let mut tail: Vec<char> = w.clone();
            tail.push(' ');
            pat.push(' ');
            assert(w@.take(w@.len() as int) =~= w@);
            assert(pat@ =~= seq![' '] + w@ + seq![' ']);
            assert(tail@ =~= w@ + seq![' ']);
            let one: Vec<char> = vec![' '];
            let rc = to_chars(result.as_str());
            let replaced = replace_chars(rc.as_slice(), pat.as_slice(), one.as_slice());
            assert(one@ =~= seq![' ']);
            if contains_chars(replaced.as_slice(), tail.as_slice()) {
                removed = true;
            }
            result = from_chars(replaced.as_slice());
            k = k + 1;
        }
        assert(ws.take(61) =~= ws);
        if removed {
            let rc = to_chars(result.as_str());
            let collapsed = collapse_spaces_exec(rc.as_slice());
            result = from_chars(collapsed.as_slice());
        }
        let trimmed = str_trim(result.as_str());
        if trimmed.as_str().is_empty() {
            None
        } else {
            Some(trimmed)
        }
    }

    /// Collapses runs of spaces and trims the query (see [`normalized`]).
    pub fn normalize_query(&self, query: &mut String)
        ensures
            final(query)@ == normalized(old(query)@),
    {
        let qc = to_chars(query.as_str());
        let collapsed = collapse_spaces_exec(qc.as_slice());
        let c = from_chars(collapsed.as_slice());
        *query = str_trim(c.as_str());
    }

    /// Expands the known abbreviations in the query (see [`expanded`]).
    pub fn expand_abbreviations(&self, query: &mut String)
        ensures
            final(query)@ == expanded(old(query)@),
    {
        let qc = to_chars(query.as_str());
        let ghost q0 = qc@;
        let mut out: Vec<char> = Vec::new();
        let mut cur: Vec<char> = Vec::new();
        let mut i: usize = 0;
        assert(q0.skip(0) =~= q0);
        while i < qc.len()
            invariant
                q0 == qc@,
                i <= q0.len(),
                expanded(q0) == expand_from(q0.skip(i as int), out@, cur@),
            decreases q0.len() - i,
        {
            assert(q0.skip(i as int)[0] == qc@[i as int]);
            assert(q0.skip(i as int).drop_first() =~= q0.skip(i + 1));
            if qc[i] == ' ' {
                let mut e = expand_word_exec(&cur);
                let ghost o0 = out@;
                out.append(&mut e);
                out.push(' ');
                assert(out@ =~= o0 + expand_word(cur@) + seq![' ']);
                cur = Vec::new();
                assert(cur@ =~= Seq::<char>::empty());
            } else {
                cur.push(qc[i]);
            }
            i = i + 1;
        }
        let mut e = expand_word_exec(&cur);
        let ghost o0 = out@;
        out.append(&mut e);
        assert(out@ =~= o0 + expand_word(cur@));
        *query = from_chars(out.as_slice());
    }

    /// Remembers a keyword, lower-cased, if it is new.
    pub fn add_keyword(&mut self, keyword: String)
        ensures
            final(self).keyword_list() == add_unique(old(self).keyword_list(), lowercase(keyword@)),
            final(self).entity_list() == old(self).entity_list(),
            final(self).tag_list() == old(self).tag_list(),
    {
        proof {
            use_type_invariant(&*self);
        }
        let k = to_lowercase(keyword.as_str());
        let mut ks: Vec<String> = Vec::new();
        std::mem::swap(&mut ks, &mut self.keywords);
        proof {
            lemma_add_unique_distinct(ks.deep_view(), k@);
        }
        push_unique(&mut ks, k);
        self.keywords = ks;
    }

    /// Remembers an entity, lower-cased, if it is new.
    pub fn add_entity(&mut self, entity: String)
        ensures
            final(self).entity_list() == add_unique(old(self).entity_list(), lowercase(entity@)),
            final(self).keyword_list() == old(self).keyword_list(),
            final(self).tag_list() == old(self).tag_list(),
    {
        proof {
            use_type_invariant(&*self);
        }
        let k = to_lowercase(entity.as_str());
        let mut es: Vec<String> = Vec::new();
        std::mem::swap(&mut es, &mut self.entities);
        proof {
            lemma_add_unique_distinct(es.deep_view(), k@);
        }
        push_unique(&mut es, k);
        self.entities = es;
    }

    /// Remembers a tag, lower-cased, if it is new.
    pub fn add_tag(&mut self, tag: String)
        ensures
            final(self).tag_list() == add_unique(old(self).tag_list(), lowercase(tag@)),
            final(self).keyword_list() == old(self).keyword_list(),
            final(self).entity_list() == old(self).entity_list(),
    {
        proof {
            use_type_invariant(&*self);
        }
        let k = to_lowercase(tag.as_str());
        let mut ts: Vec<String> = Vec::new();
        std::mem::swap(&mut ts, &mut self.tags);
        proof {
            lemma_add_unique_distinct(ts.deep_view(), k@);
        }
        push_unique(&mut ts, k);
        self.tags = ts;
    }

    /// Known keywords that start with the lower-cased `partial_query`: the
    /// first ones found, until `limit` of them (at least one, when any
    /// matches) are found, in lexicographic order.
    pub fn get_search_suggestions(&self, partial_query: &str, limit: usize) -> (r: Vec<String>)
        ensures
            ({
                let picked = pick_suggestions(
                    self.keyword_list(),
                    lowercase(partial_query@),
                    limit as nat,
                    Seq::<Seq<char>>::empty(),
                );
                &&& r.deep_view().to_set() == picked.to_set()
                &&& r@.len() == picked.len()
                &&& strictly_sorted(r.deep_view())
            }),
    {
        let partial_lower = to_lowercase(partial_query);
        let pc = to_chars(partial_lower.as_str());
        let ghost ks = self.keywords.deep_view();
        let ghost prefix = partial_lower@;
        let mut suggestions: Vec<String> = Vec::new();
        let mut i: usize = 0;
        assert(ks.skip(0) =~= ks);
        assert(suggestions.deep_view() =~= Seq::<Seq<char>>::empty());
        while i < self.keywords.len()
            invariant
                i <= ks.len(),
                ks == self.keywords.deep_view(),
                pc@ == prefix,
                prefix == lowercase(partial_query@),
                pick_suggestions(ks, prefix, limit as nat, Seq::<Seq<char>>::empty())
                    == pick_suggestions(ks.skip(i as int), prefix, limit as nat, suggestions.deep_view()),
            decreases ks.len() - i,
        {
            let keyword = &self.keywords[i];
            let kc = to_chars(keyword.as_str());
            assert(ks.skip(i as int)[0] == keyword@);
            assert(ks.skip(i as int).drop_first() =~= ks.skip(i + 1));
            if starts_with_chars(kc.as_slice(), pc.as_slice()) && !contains_string(
                &suggestions,
                keyword,
            ) {
                let ghost s0 = suggestions.deep_view();
                suggestions.push(keyword.clone());
                assert(suggestions.deep_view() =~= s0.push(keyword@));
                if suggestions.len() >= limit {
                    proof {
                        lemma_pick_distinct(
                            ks,
                            prefix,
                            limit as nat,
                            Seq::<Seq<char>>::empty(),
                        );
                    }
                    return sort_distinct(&suggestions);
                }
            }
            i = i + 1;
        }
        assert(ks.skip(i as int) =~= Seq::<Seq<char>>::empty());
        proof {
            lemma_pick_distinct(ks, prefix, limit as nat, Seq::<Seq<char>>::empty());
        }
        sort_distinct(&suggestions)
    }

    /// Learns the keywords of a query, lower-cased, in order.
    pub fn learn_from_search(&mut self, query: &str, results_count: usize)
        ensures
            final(self).keyword_list() == learn_all(old(self).keyword_list(), query_keywords(query@)),
            final(self).entity_list() == old(self).entity_list(),
            final(self).tag_list() == old(self).tag_list(),
    {
        let keywords = self.extract_keywords(query);
        let ghost ks = keywords.deep_view();
        let ghost known = self.keyword_list();
        let mut j: usize = 0;
        assert(ks.take(0) =~= Seq::<Seq<char>>::empty());
        while j < keywords.len()
            invariant
                j <= ks.len(),
                ks == keywords.deep_view(),
                self.keyword_list() == learn_all(known, ks.take(j as int)),
                self.entity_list() == old(self).entity_list(),
                self.tag_list() == old(self).tag_list(),
            decreases ks.len() - j,
        {
            assert(ks.take(j + 1).drop_last() =~= ks.take(j as int));
            assert(ks.take(j + 1).last() == keywords[j as int]@);
            self.add_keyword(keywords[j].clone());
            j = j + 1;
        }
        assert(ks.take(ks.len() as int) =~= ks);
    }
}

/// Learning from a query leaves every keyword of the query among the
/// optimizer's known keywords, lower-cased, and keeps those known before.
pub proof fn law_learning_keeps_and_adds(known: Seq<Seq<char>>, ks: Seq<Seq<char>>)
    ensures
        forall|x: Seq<char>| known.contains(x) ==> learn_all(known, ks).contains(x),
        forall|i: int| 0 <= i < ks.len() ==> learn_all(known, ks).contains(lowercase(#[trigger] ks[i])),
    decreases ks.len(),
{
    if ks.len() > 0 {
        law_learning_keeps_and_adds(known, ks.drop_last());
        let prev = learn_all(known, ks.drop_last());
        let k = lowercase(ks.last());
        assert forall|x: Seq<char>| prev.contains(x) implies add_unique(prev, k).contains(x) by {
            if !prev.contains(k) {
                let m = choose|m: int| 0 <= m < prev.len() && prev[m] == x;
                assert(prev.push(k)[m] == x);
            }
        }
        assert(add_unique(prev, k).contains(k)) by {
            if !prev.contains(k) {
                assert(prev.push(k)[prev.len() as int] == k);
            }
        }
        assert forall|i: int| 0 <= i < ks.len() implies learn_all(known, ks).contains(
            lowercase(#[trigger] ks[i]),
        ) by {
            if i < ks.len() - 1 {
                assert(ks.drop_last()[i] == ks[i]);
            }
        }
    }
}

impl Default for QueryOptimizer {
    fn default() -> (o: Self)
        ensures
            o.keyword_list() == Seq::<Seq<char>>::empty(),
            o.entity_list() == Seq::<Seq<char>>::empty(),
            o.tag_list() == Seq::<Seq<char>>::empty(),
    {
        Self::new()
    }
}

} // verus!
