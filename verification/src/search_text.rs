//! The text that the full-text index holds and is queried with: lower case, accents
//! folded, words separated by single spaces; and the typo corrections of a query.

use vstd::prelude::*;

use crate::resolve::HashedItemType;
use crate::text::byte_len;
use crate::text::has_prefix;
use crate::text::join;
use crate::text::join_with_space;
use crate::text::lowercase;
use crate::text::starts_with;
use crate::text::str_eq;
use crate::text::split_tokens;
use crate::text::to_lowercase;
use crate::text::tokens;
use crate::text::Separators;
use crate::vocabulary::is_ranked_matches;
use crate::vocabulary::Vocabulary;

verus! {

/// Name of `char::is_alphanumeric` (Unicode letters and numbers).
pub uninterp spec fn alphanumeric(c: char) -> bool;

/// Calls `char::is_alphanumeric`. Claimed: the result depends on the character alone;
/// the Unicode tables are not stated.
#[verifier::external_body]
pub(crate) fn is_alphanumeric(c: char) -> (r: bool)
    ensures
        r == alphanumeric(c),
{
    c.is_alphanumeric()
}

/// Calls `String::from_iter` on the characters of `cs`. Claimed: the text of exactly
/// those characters, in order.
#[verifier::external_body]
pub(crate) fn string_of(cs: &Vec<char>) -> (r: String)
    ensures
        r@ == cs@,
{
    String::from_iter(cs.iter())
}

/// Latin letters with accents and strokes, by the letter they fold to.
pub open spec fn fold(c: char) -> char {
    let u = c as u32;
    if (0xe0 <= u <= 0xe5) || u == 0x101 || u == 0x103 || u == 0x105 {
        'a'
    } else if u == 0xe7 || u == 0x107 || u == 0x109 || u == 0x10b || u == 0x10d {
        'c'
    } else if u == 0x10f || u == 0x111 {
        'd'
    } else if (0xe8 <= u <= 0xeb) || u == 0x113 || u == 0x115 || u == 0x117 || u == 0x119 || u
        == 0x11b {
        'e'
    } else if u == 0x11d || u == 0x11f || u == 0x121 || u == 0x123 {
        'g'
    } else if u == 0x125 || u == 0x127 {
        'h'
    } else if (0xec <= u <= 0xef) || u == 0x129 || u == 0x12b || u == 0x12d || u == 0x12f || u
        == 0x131 {
        'i'
    } else if u == 0x135 {
        'j'
    } else if u == 0x137 {
        'k'
    } else if u == 0x13a || u == 0x13c || u == 0x13e || u == 0x140 || u == 0x142 {
        'l'
    } else if u == 0xf1 || u == 0x144 || u == 0x146 || u == 0x148 {
        'n'
    } else if (0xf2 <= u <= 0xf6) || u == 0xf8 || u == 0x14d || u == 0x14f || u == 0x151 {
        'o'
    } else if u == 0x155 || u == 0x157 || u == 0x159 {
        'r'
    } else if u == 0x15b || u == 0x15d || u == 0x15f || u == 0x161 {
        's'
    } else if u == 0x163 || u == 0x165 || u == 0x167 {
        't'
    } else if (0xf9 <= u <= 0xfc) || u == 0x169 || u == 0x16b || u == 0x16d || u == 0x16f || u
        == 0x171 || u == 0x173 {
        'u'
    } else if u == 0x175 {
        'w'
    } else if u == 0xfd || u == 0xff || u == 0x177 {
        'y'
    } else if u == 0x17a || u == 0x17c || u == 0x17e {
        'z'
    } else {
        c
    }
}

/// `c` is an accented or stroked Latin letter whose base letter is `b`: the letters with
/// grave, acute, circumflex, tilde, diaeresis, ring, macron, breve, ogonek, cedilla, dot,
/// caron, double acute or stroke that search treats as their plain letter.
pub open spec fn folds_to(c: char, b: char) -> bool {
    ||| b == 'a' && (c == '\u{e0}' || c == '\u{e1}' || c == '\u{e2}' || c == '\u{e3}'
        || c == '\u{e4}' || c == '\u{e5}' || c == '\u{101}' || c == '\u{103}'
        || c == '\u{105}')
    ||| b == 'c' && (c == '\u{e7}' || c == '\u{107}' || c == '\u{109}' || c == '\u{10b}'
        || c == '\u{10d}')
    ||| b == 'd' && (c == '\u{10f}' || c == '\u{111}')
    ||| b == 'e' && (c == '\u{e8}' || c == '\u{e9}' || c == '\u{ea}' || c == '\u{eb}'
        || c == '\u{113}' || c == '\u{115}' || c == '\u{117}' || c == '\u{119}'
        || c == '\u{11b}')
    ||| b == 'g' && (c == '\u{11d}' || c == '\u{11f}' || c == '\u{121}' || c == '\u{123}')
    ||| b == 'h' && (c == '\u{125}' || c == '\u{127}')
    ||| b == 'i' && (c == '\u{ec}' || c == '\u{ed}' || c == '\u{ee}' || c == '\u{ef}'
        || c == '\u{129}' || c == '\u{12b}' || c == '\u{12d}' || c == '\u{12f}'
        || c == '\u{131}')
    ||| b == 'j' && (c == '\u{135}')
    ||| b == 'k' && (c == '\u{137}')
    ||| b == 'l' && (c == '\u{13a}' || c == '\u{13c}' || c == '\u{13e}' || c == '\u{140}'
        || c == '\u{142}')
    ||| b == 'n' && (c == '\u{f1}' || c == '\u{144}' || c == '\u{146}' || c == '\u{148}')
    ||| b == 'o' && (c == '\u{f2}' || c == '\u{f3}' || c == '\u{f4}' || c == '\u{f5}'
        || c == '\u{f6}' || c == '\u{f8}' || c == '\u{14d}' || c == '\u{14f}'
        || c == '\u{151}')
    ||| b == 'r' && (c == '\u{155}' || c == '\u{157}' || c == '\u{159}')
    ||| b == 's' && (c == '\u{15b}' || c == '\u{15d}' || c == '\u{15f}' || c == '\u{161}')
    ||| b == 't' && (c == '\u{163}' || c == '\u{165}' || c == '\u{167}')
    ||| b == 'u' && (c == '\u{f9}' || c == '\u{fa}' || c == '\u{fb}' || c == '\u{fc}'
        || c == '\u{169}' || c == '\u{16b}' || c == '\u{16d}' || c == '\u{16f}'
        || c == '\u{171}' || c == '\u{173}')
    ||| b == 'w' && (c == '\u{175}')
    ||| b == 'y' && (c == '\u{fd}' || c == '\u{ff}' || c == '\u{177}')
    ||| b == 'z' && (c == '\u{17a}' || c == '\u{17c}' || c == '\u{17e}')
}

/// Each accented letter of the table folds to its base letter, a plain ASCII letter.
pub proof fn lemma_fold_to_base(c: char, b: char)
    requires
        folds_to(c, b),
    ensures
        fold(c) == b,
        'a' <= b <= 'z',
        c as u32 >= 0xe0,
{
}

/// What `fold` gives is never an accented letter of the table.
pub proof fn lemma_fold_leaves_no_accent(c: char, b: char)
    ensures
        !folds_to(fold(c), b),
{
    if folds_to(fold(c), b) {
        lemma_fold_to_base(fold(c), b);
    }
}

/// Each character that `collapse` writes is a space or a character of its input.
proof fn lemma_collapse_chars(s: Seq<char>)
    ensures
        forall|i: int|
            0 <= i < collapse(s).0.len() ==> #[trigger] collapse(s).0[i] == ' ' || s.contains(
                collapse(s).0[i],
            ),
    decreases s.len(),
{
    if s.len() > 0 {
        let p = s.drop_last();
        lemma_collapse_chars(p);
        let out = collapse(p).0;
        assert forall|i: int| 0 <= i < collapse(s).0.len() implies #[trigger] collapse(s).0[i]
            == ' ' || s.contains(collapse(s).0[i]) by {
            let x = collapse(s).0[i];
            if x != ' ' {
                if i < out.len() {
                    assert(out[i] == x);
                    let k = choose|k: int| 0 <= k < p.len() && p[k] == x;
                    assert(s[k] == x);
                } else {
                    assert(x == s.last());
                    assert(s[s.len() - 1] == x);
                }
            }
        }
    }
}

/// The indexed form of any text holds no accented letter of the table: each has been
/// replaced by its base letter.
pub proof fn lemma_normalized_has_no_accents(text: Seq<char>)
    ensures
        forall|i: int, b: char|
            0 <= i < normalized(text).len() ==> !#[trigger] folds_to(normalized(text)[i], b),
{
    let l = lowercase(text);
    let s = l.map_values(|c: char| fold(c));
    let out = collapse(s).0;
    lemma_collapse_chars(s);
    assert forall|i: int, b: char| 0 <= i < normalized(text).len() implies !#[trigger] folds_to(
        normalized(text)[i],
        b,
    ) by {
        let x = normalized(text)[i];
        assert(x == out[i]);
        if x != ' ' {
            let k = choose|k: int| 0 <= k < s.len() && s[k] == x;
            assert(s[k] == fold(l[k]));
            lemma_fold_leaves_no_accent(l[k], b);
        }
    }
}

fn fold_char(c: char) -> (r: char)
    ensures
        r == fold(c),
{
    let u = c as u32;
    if (0xe0 <= u && u <= 0xe5) || u == 0x101 || u == 0x103 || u == 0x105 {
        'a'
    } else if u == 0xe7 || u == 0x107 || u == 0x109 || u == 0x10b || u == 0x10d {
        'c'
    } else if u == 0x10f || u == 0x111 {
        'd'
    } else if (0xe8 <= u && u <= 0xeb) || u == 0x113 || u == 0x115 || u == 0x117 || u == 0x119
        || u == 0x11b {
        'e'
    } else if u == 0x11d || u == 0x11f || u == 0x121 || u == 0x123 {
        'g'
    } else if u == 0x125 || u == 0x127 {
        'h'
    } else if (0xec <= u && u <= 0xef) || u == 0x129 || u == 0x12b || u == 0x12d || u == 0x12f
        || u == 0x131 {
        'i'
    } else if u == 0x135 {
        'j'
    } else if u == 0x137 {
        'k'
    } else if u == 0x13a || u == 0x13c || u == 0x13e || u == 0x140 || u == 0x142 {
        'l'
    } else if u == 0xf1 || u == 0x144 || u == 0x146 || u == 0x148 {
        'n'
    } else if (0xf2 <= u && u <= 0xf6) || u == 0xf8 || u == 0x14d || u == 0x14f || u == 0x151 {
        'o'
    } else if u == 0x155 || u == 0x157 || u == 0x159 {
        'r'
    } else if u == 0x15b || u == 0x15d || u == 0x15f || u == 0x161 {
        's'
    } else if u == 0x163 || u == 0x165 || u == 0x167 {
        't'
    } else if (0xf9 <= u && u <= 0xfc) || u == 0x169 || u == 0x16b || u == 0x16d || u == 0x16f
        || u == 0x171 || u == 0x173 {
        'u'
    } else if u == 0x175 {
        'w'
    } else if u == 0xfd || u == 0xff || u == 0x177 {
        'y'
    } else if u == 0x17a || u == 0x17c || u == 0x17e {
        'z'
    } else {
        c
    }
}

/// The letters and numbers of `s` in order, each run of other characters becoming one
/// space (none at the start); and whether the last character written is such a space
/// (or nothing was written).
pub open spec fn collapse(s: Seq<char>) -> (Seq<char>, bool)
    decreases s.len(),
{
    if s.len() == 0 {
        (Seq::<char>::empty(), true)
    } else {
        let (out, spaced) = collapse(s.drop_last());
        let c = s.last();
        if alphanumeric(c) {
            (out.push(c), false)
        } else if !spaced {
            (out.push(' '), true)
        } else {
            (out, spaced)
        }
    }
}

/// The indexed form of a text: lower-cased, accents folded, letters and numbers kept,
/// words separated by single spaces, with no space at either end.
pub open spec fn normalized(text: Seq<char>) -> Seq<char> {
    let out = collapse(lowercase(text).map_values(|c: char| fold(c))).0;
    if out.len() > 0 && out.last() == ' ' {
        out.drop_last()
    } else {
        out
    }
}

pub fn normalize_text(text: &str) -> (r: String)
    ensures
        r@ == normalized(text@),
{
    let lowered = to_lowercase(text);
    let l = lowered.as_str();
    let ghost folded = l@.map_values(|c: char| fold(c));
    let n = l.unicode_len();
    let mut out: Vec<char> = Vec::new();
    let mut last_was_space = true;
    let mut i: usize = 0;
    while i < n
        invariant
            n == l@.len(),
            folded == l@.map_values(|c: char| fold(c)),
            i <= n,
            (out@, last_was_space) == collapse(folded.take(i as int)),
        decreases n - i,
    {
        let c = fold_char(l.get_char(i));
        proof {
            assert(folded.take(i + 1).drop_last() =~= folded.take(i as int));
            assert(folded.take(i + 1).last() == c);
        }
        if is_alphanumeric(c) {
            out.push(c);
            last_was_space = false;
        } else if !last_was_space {
            out.push(' ');
            last_was_space = true;
        }
        i = i + 1;
    }
    proof {
        assert(folded.take(n as int) =~= folded);
    }
    if out.len() > 0 && out[out.len() - 1] == ' ' {
        out.pop();
    }
    string_of(&out)
}

/// The part of `v` after `prefix`, where `v` begins with it.
pub open spec fn after_prefix(v: Seq<char>, prefix: Seq<char>) -> Option<Seq<char>> {
    if has_prefix(v, prefix) {
        Some(v.skip(prefix.len() as int))
    } else {
        None
    }
}

/// Where one additional text of an item goes: the texts tagged `artist:` and `album:`
/// go to their fields without the tag; `extra:` texts, and untagged ones as they are,
/// go to the extra field.
pub open spec fn sorted_parts(additional: Seq<Seq<char>>) -> (Seq<Seq<char>>, Seq<Seq<char>>, Seq<Seq<char>>)
    decreases additional.len(),
{
    if additional.len() == 0 {
        (Seq::empty(), Seq::empty(), Seq::empty())
    } else {
        let (a, b, e) = sorted_parts(additional.drop_last());
        let v = additional.last();
        match after_prefix(v, "artist:"@) {
            Some(x) => (a.push(x), b, e),
            None => match after_prefix(v, "album:"@) {
                Some(x) => (a, b.push(x), e),
                None => match after_prefix(v, "extra:"@) {
                    Some(x) => (a, b, e.push(x)),
                    None => (a, b, e.push(v)),
                },
            },
        }
    }
}

fn strip_tag<'a>(v: &'a str, tag: &str) -> (r: Option<&'a str>)
    ensures
        match after_prefix(v@, tag@) {
            Some(x) => r matches Some(s) && s@ == x,
            None => r is None,
        },
{
    if starts_with(v, tag) {
        let from = tag.unicode_len();
        let to = v.unicode_len();
        let rest = v.substring_char(from, to);
        assert(rest@ =~= v@.skip(tag@.len() as int));
        Some(rest)
    } else {
        None
    }
}

pub open spec fn string_views(v: Seq<String>) -> Seq<Seq<char>> {
    v.map_values(|s: String| s@)
}

/// The four indexed fields of an item: its name, its artists, its albums and the rest,
/// each normalized (a field's texts joined by spaces first).
pub fn metadata_document_parts(name: &str, additional_text: &Vec<String>) -> (r: (String, String, String, String))
    ensures
        ({
            let (a, b, e) = sorted_parts(string_views(additional_text@));
            &&& r.0@ == normalized(name@)
            &&& r.1@ == normalized(join(a, ' '))
            &&& r.2@ == normalized(join(b, ' '))
            &&& r.3@ == normalized(join(e, ' '))
        }),
{
    let ghost views = string_views(additional_text@);
    let mut artists: Vec<String> = Vec::new();
    let mut albums: Vec<String> = Vec::new();
    let mut extras: Vec<String> = Vec::new();
    let mut i: usize = 0;
    while i < additional_text.len()
        invariant
            i <= additional_text@.len(),
            views == string_views(additional_text@),
            (string_views(artists@), string_views(albums@), string_views(extras@)) == sorted_parts(
                views.take(i as int),
            ),
        decreases additional_text@.len() - i,
    {
        let v = additional_text[i].as_str();
        proof {
            assert(views.take(i + 1).drop_last() =~= views.take(i as int));
            assert(views.take(i + 1).last() == v@);
        }
        let ghost (a0, b0, e0) = (string_views(artists@), string_views(albums@), string_views(extras@));
        match strip_tag(v, "artist:") {
            Some(x) => {
                artists.push(x.to_string());
                assert(string_views(artists@) =~= a0.push(x@));
            },
            None => match strip_tag(v, "album:") {
                Some(x) => {
                    albums.push(x.to_string());
                    assert(string_views(albums@) =~= b0.push(x@));
                },
                None => match strip_tag(v, "extra:") {
                    Some(x) => {
                        extras.push(x.to_string());
                        assert(string_views(extras@) =~= e0.push(x@));
                    },
                    None => {
                        extras.push(v.to_string());
                        assert(string_views(extras@) =~= e0.push(v@));
                    },
                },
            },
        }
        i = i + 1;
    }
    proof {
        assert(views.take(additional_text@.len() as int) =~= views);
    }
    let artist_text = join_with_space(&artists);
    let album_text = join_with_space(&albums);
    let extra_text = join_with_space(&extras);
    (
        normalize_text(name),
        normalize_text(artist_text.as_str()),
        normalize_text(album_text.as_str()),
        normalize_text(extra_text.as_str()),
    )
}

pub open spec fn item_type_name(t: HashedItemType) -> Seq<char> {
    match t {
        HashedItemType::Artist => "artist"@,
        HashedItemType::Album => "album"@,
        HashedItemType::Track => "track"@,
    }
}

/// How the index stores the kind of an item.
pub fn item_type_to_str(item_type: HashedItemType) -> (r: &'static str)
    ensures
        r@ == item_type_name(item_type),
{
    match item_type {
        HashedItemType::Artist => "artist",
        HashedItemType::Album => "album",
        HashedItemType::Track => "track",
    }
}

pub open spec fn item_type_named(s: Seq<char>) -> Option<HashedItemType> {
    if s == "artist"@ {
        Some(HashedItemType::Artist)
    } else if s == "album"@ {
        Some(HashedItemType::Album)
    } else if s == "track"@ {
        Some(HashedItemType::Track)
    } else {
        None
    }
}

/// The kind of an item as the index stores it; `None` for any other text.
pub fn str_to_item_type(s: &str) -> (r: Option<HashedItemType>)
    ensures
        r == item_type_named(s@),
{
    if str_eq(s, "artist") {
        Some(HashedItemType::Artist)
    } else if str_eq(s, "album") {
        Some(HashedItemType::Album)
    } else if str_eq(s, "track") {
        Some(HashedItemType::Track)
    } else {
        None
    }
}

/// Reading back how a kind is stored gives the kind.
pub proof fn lemma_item_type_names_round_trip(t: HashedItemType)
    ensures
        item_type_named(item_type_name(t)) == Some(t),
{
    reveal_strlit("artist");
    reveal_strlit("album");
    reveal_strlit("track");
    assert("artist"@.len() == 6 && "artist"@[1] == 'r');
    assert("album"@.len() == 5);
    assert("track"@.len() == 5 && "track"@[0] == 't');
    assert("album"@[0] == 'a');
}

/// The query as the vocabulary corrects it.
pub open spec fn corrected_spec(ws: Seq<Seq<char>>, q: Seq<char>, max_distance: nat) -> Seq<char> {
    if ws.len() == 0 {
        q
    } else {
        crate::text::join(
            tokens(Separators::Whitespace, q).map_values(
                |t: Seq<char>| crate::vocabulary::corrected_word(ws, t, max_distance),
            ),
            ' ',
        )
    }
}

/// A query as searched: as it is where the vocabulary is empty, else corrected word by
/// word against the vocabulary.
pub fn correct_with_vocabulary(vocabulary: &Vocabulary, query: &str, max_distance: usize) -> (r: String)
    requires
        vocabulary.wf(),
        max_distance <= isize::MAX,
    ensures
        r@ == corrected_spec(vocabulary@, query@, max_distance as nat),
{
    if vocabulary.is_empty() {
        return query.to_string();
    }
    vocabulary.correct_query(query, max_distance)
}

/// Corrections looked up for each query word when a query is expanded.
pub const EXPANDED_TOKEN_CANDIDATES: usize = 3;

/// Most variants an expanded query is searched as.
pub const EXPANDED_MAX_VARIANTS: usize = 16;

/// Longest query, in words, that is expanded.
pub const EXPANDED_MAX_TOKENS: usize = 5;

/// Every choice of one word from each list, in order: the choices for the first list's
/// first word come first.
pub open spec fn combos(lists: Seq<Seq<Seq<char>>>) -> Seq<Seq<Seq<char>>>
    decreases lists.len(),
{
    if lists.len() == 0 {
        seq![Seq::<Seq<char>>::empty()]
    } else {
        prefixed(lists[0], combos(lists.drop_first()))
    }
}

/// Each of `words`, in order, put in front of each of `tails`.
pub open spec fn prefixed(words: Seq<Seq<char>>, tails: Seq<Seq<Seq<char>>>) -> Seq<Seq<Seq<char>>>
    decreases words.len(),
{
    if words.len() == 0 {
        Seq::empty()
    } else {
        prefixed(words.drop_last(), tails) + tails.map_values(
            |t: Seq<Seq<char>>| seq![words.last()] + t,
        )
    }
}

/// `items` appended to `done` until `EXPANDED_MAX_VARIANTS` are reached.
pub open spec fn capped(done: Seq<Seq<char>>, items: Seq<Seq<char>>) -> Seq<Seq<char>> {
    if done.len() >= EXPANDED_MAX_VARIANTS {
        done
    } else if done.len() + items.len() <= EXPANDED_MAX_VARIANTS {
        done + items
    } else {
        (done + items).take(EXPANDED_MAX_VARIANTS as int)
    }
}

proof fn lemma_capped_concat(done: Seq<Seq<char>>, a: Seq<Seq<char>>, b: Seq<Seq<char>>)
    ensures
        capped(capped(done, a), b) == capped(done, a + b),
{
    assert(done + a + b =~= done + (a + b));
    if done.len() < EXPANDED_MAX_VARIANTS && done.len() + a.len() > EXPANDED_MAX_VARIANTS {
        assert((done + a).take(EXPANDED_MAX_VARIANTS as int) =~= (done + (a + b)).take(
            EXPANDED_MAX_VARIANTS as int,
        ));
    }
}

/// The variants a query is searched as: each choice of words, after the fixed words
/// `current`, joined by spaces.
pub open spec fn variants_of(current: Seq<Seq<char>>, tails: Seq<Seq<Seq<char>>>) -> Seq<Seq<char>> {
    tails.map_values(|t: Seq<Seq<char>>| join(current + t, ' '))
}

pub open spec fn lists_view(lists: Seq<Vec<String>>) -> Seq<Seq<Seq<char>>> {
    lists.map_values(|l: Vec<String>| string_views(l@))
}

proof fn lemma_prefixed_step(words: Seq<Seq<char>>, k: int, tails: Seq<Seq<Seq<char>>>, current: Seq<Seq<char>>)
    requires
        0 <= k < words.len(),
    ensures
        variants_of(current, prefixed(words.take(k + 1), tails)) == variants_of(
            current,
            prefixed(words.take(k), tails),
        ) + variants_of(current.push(words[k]), tails),
{
    let w = words.take(k + 1);
    assert(w.drop_last() =~= words.take(k));
    let front = prefixed(words.take(k), tails);
    let back = tails.map_values(|t: Seq<Seq<char>>| seq![words[k]] + t);
    assert(prefixed(w, tails) == front + back);
    assert forall|i: int| 0 <= i < tails.len() implies current + back[i] =~= current.push(words[k]) + tails[i] by {}
    assert(variants_of(current, front + back) =~= variants_of(current, front) + variants_of(
        current.push(words[k]),
        tails,
    ));
}

/// Appends, in order, the variants made of the fixed words `current` followed by each
/// choice of one word from each of `lists[index..]`, stopping at
/// `EXPANDED_MAX_VARIANTS` variants in all.
pub fn build_query_variants(lists: &Vec<Vec<String>>, index: usize, current: &mut Vec<String>, variants: &mut Vec<String>)
    requires
        index <= lists@.len(),
        old(variants)@.len() <= EXPANDED_MAX_VARIANTS,
    ensures
        final(current)@ == old(current)@,
        string_views(final(variants)@) == capped(
            string_views(old(variants)@),
            variants_of(string_views(old(current)@), combos(lists_view(lists@).skip(index as int))),
        ),
        final(variants)@.len() <= EXPANDED_MAX_VARIANTS,
    decreases lists@.len() - index,
{
    let ghost start = string_views(variants@);
    let ghost cur = string_views(current@);
    let ghost cur_vec = current@;
    let ghost rest = lists_view(lists@).skip(index as int);
    if variants.len() >= EXPANDED_MAX_VARIANTS {
        return;
    }
    if index == lists.len() {
        let v = join_with_space(current);
        variants.push(v);
        proof {
            assert(rest =~= Seq::<Seq<Seq<char>>>::empty());
            assert(cur + Seq::<Seq<char>>::empty() =~= cur);
            assert(variants_of(cur, combos(rest)) =~= seq![join(cur, ' ')]);
            assert(string_views(variants@) =~= start + seq![join(cur, ' ')]);
        }
        return;
    }
    let ghost words = string_views(lists@[index as int]@);
    let ghost tails = combos(lists_view(lists@).skip(index + 1));
    proof {
        assert(rest.drop_first() =~= lists_view(lists@).skip(index + 1));
        assert(rest[0] == words);
        assert(combos(rest) == prefixed(words, tails));
        assert(words.take(0) =~= Seq::<Seq<char>>::empty());
        assert(variants_of(cur, prefixed(words.take(0), tails)) =~= Seq::<Seq<char>>::empty());
        assert(start + Seq::<Seq<char>>::empty() =~= start);
    }
    let candidates = &lists[index];
    let mut k: usize = 0;
    while k < candidates.len()
        invariant
            index < lists@.len(),
            candidates == lists@[index as int],
            words == string_views(candidates@),
            tails == combos(lists_view(lists@).skip(index + 1)),
            string_views(current@) == cur,
            current@ == cur_vec,
            cur_vec == old(current)@,
            start == string_views(old(variants)@),
            combos(lists_view(lists@).skip(index as int)) == prefixed(words, tails),
            cur == string_views(cur_vec),
            lists@.len() == lists.len(),
            start.len() < EXPANDED_MAX_VARIANTS,
            k <= candidates@.len(),
            string_views(variants@) == capped(start, variants_of(cur, prefixed(words.take(k as int), tails))),
            variants@.len() <= EXPANDED_MAX_VARIANTS,
        decreases candidates@.len() - k,
    {
        let ghost before = string_views(variants@);
        current.push(candidates[k].clone());
        proof {
            assert(string_views(current@) =~= cur.push(words[k as int]));
        }
        build_query_variants(lists, index + 1, current, variants);
        current.pop();
        proof {
            assert(current@ =~= cur_vec);
            assert(string_views(current@) =~= cur);
            lemma_prefixed_step(words, k as int, tails, cur);
            lemma_capped_concat(
                start,
                variants_of(cur, prefixed(words.take(k as int), tails)),
                variants_of(cur.push(words[k as int]), tails),
            );
        }
        k = k + 1;
        if variants.len() >= EXPANDED_MAX_VARIANTS {
            proof {
                let all = variants_of(cur, prefixed(words, tails));
                let got = variants_of(cur, prefixed(words.take(k as int), tails));
                lemma_prefixed_prefix(words, k as int, tails);
                let p = prefixed(words.take(k as int), tails);
                let q = prefixed(words, tails);
                assert(variants_of(cur, q).take(p.len() as int) =~= variants_of(cur, q.take(p.len() as int)));
                lemma_capped_full(start, got, all);
            }
            return;
        }
    }
    proof {
        assert(words.take(candidates@.len() as int) =~= words);
    }
}

proof fn lemma_prefixed_prefix(words: Seq<Seq<char>>, k: int, tails: Seq<Seq<Seq<char>>>)
    requires
        0 <= k <= words.len(),
    ensures
        prefixed(words.take(k), tails).len() <= prefixed(words, tails).len(),
        prefixed(words, tails).take(prefixed(words.take(k), tails).len() as int) == prefixed(
            words.take(k),
            tails,
        ),
    decreases words.len() - k,
{
    if k == words.len() {
        assert(words.take(k) =~= words);
        assert(prefixed(words, tails).take(prefixed(words, tails).len() as int) =~= prefixed(words, tails));
    } else {
        lemma_prefixed_prefix(words, k + 1, tails);
        let w = words.take(k + 1);
        assert(w.drop_last() =~= words.take(k));
        let small = prefixed(words.take(k), tails);
        let mid = prefixed(w, tails);
        let big = prefixed(words, tails);
        assert(mid.take(small.len() as int) =~= small);
        assert(big.take(small.len() as int) =~= mid.take(small.len() as int));
    }
}

proof fn lemma_capped_full(done: Seq<Seq<char>>, got: Seq<Seq<char>>, all: Seq<Seq<char>>)
    requires
        capped(done, got).len() >= EXPANDED_MAX_VARIANTS,
        got.len() <= all.len(),
        all.take(got.len() as int) == got,
    ensures
        capped(done, all) == capped(done, got),
{
    if done.len() < EXPANDED_MAX_VARIANTS {
        assert((done + all).take(EXPANDED_MAX_VARIANTS as int) =~= (done + got).take(
            EXPANDED_MAX_VARIANTS as int,
        ));
    }
}

/// What a lookup of up to `EXPANDED_TOKEN_CANDIDATES` corrections of `t` may answer.
pub open spec fn corrections_of(ws: Seq<Seq<char>>, t: Seq<char>, max_distance: nat, found: Seq<Seq<char>>) -> bool {
    if byte_len(lowercase(t)) < 3 {
        found.len() == 0
    } else {
        is_ranked_matches(ws, lowercase(t), max_distance, EXPANDED_TOKEN_CANDIDATES as nat, found)
    }
}

/// The words tried in place of `t`: its corrections, or `t` itself where it has none.
pub open spec fn token_choices(ws: Seq<Seq<char>>, t: Seq<char>, max_distance: nat, choices: Seq<Seq<char>>) -> bool {
    exists|found: Seq<Seq<char>>|
        #[trigger] corrections_of(ws, t, max_distance, found) && choices == (if found.len() == 0 {
            seq![t]
        } else {
            found
        })
}

/// Whether `vs` are the variants query `q` is expanded into against the words `ws`: none
/// for a query of no words or of more than `EXPANDED_MAX_TOKENS` words, or when there are
/// no words to correct against; otherwise the first `EXPANDED_MAX_VARIANTS` combinations,
/// in order, of each query word's corrections (the word itself where it has none).
pub open spec fn is_expansion(ws: Seq<Seq<char>>, q: Seq<char>, max_distance: nat, vs: Seq<Seq<char>>) -> bool {
    let ts = tokens(Separators::Whitespace, q);
    &&& (ts.len() == 0 || ts.len() > EXPANDED_MAX_TOKENS || ws.len() == 0) ==> vs.len() == 0
    &&& !(ts.len() == 0 || ts.len() > EXPANDED_MAX_TOKENS || ws.len() == 0) ==> exists|lists: Seq<Seq<Seq<char>>>|
        #![trigger combos(lists)]
        lists.len() == ts.len() && (forall|i: int| 0 <= i < ts.len() ==> token_choices(
            ws,
            ts[i],
            max_distance,
            #[trigger] lists[i],
        )) && vs == capped(Seq::empty(), variants_of(Seq::empty(), combos(lists)))
}

/// The variants a query is also searched as: for a query of one to five words, and a
/// vocabulary that holds words, the first `EXPANDED_MAX_VARIANTS` combinations of each
/// word's corrections (the word itself where it has none), in order; no variant
/// otherwise.
pub fn expanded_query_variants(vocabulary: &Vocabulary, query: &str, max_distance: usize) -> (r: Vec<String>)
    requires
        vocabulary.wf(),
        max_distance <= isize::MAX,
    ensures
        is_expansion(vocabulary@, query@, max_distance as nat, string_views(r@)),
{
    let words = split_tokens(query, Separators::Whitespace);
    let ghost ts = tokens(Separators::Whitespace, query@);
    if words.len() == 0 || words.len() > EXPANDED_MAX_TOKENS {
        return Vec::new();
    }
    if vocabulary.is_empty() {
        return Vec::new();
    }
    let mut lists: Vec<Vec<String>> = Vec::new();
    let mut i: usize = 0;
    while i < words.len()
        invariant
            vocabulary.wf(),
            max_distance <= isize::MAX,
            i <= words@.len(),
            words@.len() == ts.len(),
            forall|k: int| 0 <= k < words@.len() ==> #[trigger] words@[k]@ == ts[k],
            lists@.len() == i,
            forall|k: int| 0 <= k < i ==> token_choices(
                vocabulary@,
                ts[k],
                max_distance as nat,
                #[trigger] lists_view(lists@)[k],
            ),
        decreases words@.len() - i,
    {
        let token = words[i];
        let found = vocabulary.find_best_matches(token, max_distance, EXPANDED_TOKEN_CANDIDATES);
        let ghost found_view = found@.map_values(|w: &str| w@);
        let mut choices: Vec<String> = Vec::new();
        if found.len() == 0 {
            choices.push(token.to_string());
            proof {
                assert(string_views(choices@) =~= seq![ts[i as int]]);
            }
        } else {
            let mut j: usize = 0;
            while j < found.len()
                invariant
                    j <= found@.len(),
                    found_view == found@.map_values(|w: &str| w@),
                    string_views(choices@) == found_view.take(j as int),
                decreases found@.len() - j,
            {
                let w = found[j].to_owned();
                assert(w@ == found_view[j as int]);
                let ghost old_choices = choices@;
                choices.push(w);
                assert(string_views(choices@) =~= string_views(old_choices).push(w@));
                assert(found_view.take(j + 1) =~= found_view.take(j as int).push(found_view[j as int]));
                j = j + 1;
            }
            assert(found_view.take(found@.len() as int) =~= found_view);
        }
        proof {
            assert(corrections_of(vocabulary@, ts[i as int], max_distance as nat, found_view));
        }
        let ghost before = lists@;
        lists.push(choices);
        proof {
            assert(lists_view(lists@) =~= lists_view(before).push(string_views(choices@)));
        }
        i = i + 1;
    }
    let mut current: Vec<String> = Vec::new();
    let mut variants: Vec<String> = Vec::new();
    build_query_variants(&lists, 0, &mut current, &mut variants);
    proof {
        let lv = lists_view(lists@);
        assert(lv.skip(0) =~= lv);
        assert(string_views(Seq::<String>::empty()) =~= Seq::<Seq<char>>::empty());
        assert(lv.len() == ts.len());
        assert(forall|k: int| 0 <= k < ts.len() ==> token_choices(vocabulary@, ts[k], max_distance as nat, #[trigger] lv[k]));
        assert(string_views(variants@) == capped(Seq::empty(), variants_of(Seq::empty(), combos(lv))));
    }
    variants
}

/// Impressions counted per user and day.
pub const IMPRESSION_USER_DAILY_BUDGET: i64 = 500;

/// Impressions counted per device and day.
pub const IMPRESSION_DEVICE_DAILY_BUDGET: i64 = 200;

/// Whether one more impression may be counted, given those already counted today for
/// the user and for the device.
pub fn impression_within_budget(user_count: i64, device_count: i64) -> (r: bool)
    ensures
        r == (user_count < IMPRESSION_USER_DAILY_BUDGET && device_count < IMPRESSION_DEVICE_DAILY_BUDGET),
{
    !(user_count >= IMPRESSION_USER_DAILY_BUDGET || device_count >= IMPRESSION_DEVICE_DAILY_BUDGET)
}

/// The device an impression is filed under; `-1` where it came from no known device.
pub fn impression_device_key(device_id: Option<usize>) -> (r: i64)
    ensures
        r == match device_id {
            Some(id) => id as i64,
            None => -1i64,
        },
{
    match device_id {
        Some(id) => id as i64,
        None => -1,
    }
}

} // verus!
