//! The FTS5 match expressions of a search on the enriched index: one per lexical channel
//! (the quoted phrase, or the whole query as a phrase, all of its words, any of its words,
//! and its typo-corrected variants).

use vstd::prelude::*;

use crate::search_text::correct_with_vocabulary;
use crate::search_text::corrected_spec;
use crate::search_text::expanded_query_variants;
use crate::search_text::is_expansion;
use crate::search_text::normalize_text;
use crate::search_text::normalized;
use crate::search_text::string_of;
use crate::search_text::string_views;
use crate::search_text::EXPANDED_MAX_VARIANTS;
use crate::text::chars_of;
use crate::text::opt_chars;
use crate::text::split_tokens;
use crate::text::str_eq;
use crate::text::tokens;
use crate::text::trim_bounds;
use crate::text::trimmed;
use crate::text::Separators;
use crate::vocabulary::Vocabulary;

verus! {

/// The text inside a query written as one quoted phrase: once trimmed, at least two
/// characters, the first and the last a double quote.
pub open spec fn quoted_inner(q: Seq<char>) -> Option<Seq<char>> {
    let t = trimmed(q);
    if t.len() >= 2 && t[0] == '"' && t.last() == '"' {
        Some(t.subrange(1, t.len() - 1))
    } else {
        None
    }
}

/// The text inside a query written as one quoted phrase, if it is one.
pub fn quoted_phrase(query: &str) -> (r: Option<&str>)
    ensures
        opt_chars(r) == quoted_inner(query@),
{
    let cs = chars_of(query);
    let (a, b) = trim_bounds(&cs, 0, cs.len());
    assert(cs@.subrange(0, cs@.len() as int) =~= cs@);
    if b - a >= 2 && cs[a] == '"' && cs[b - 1] == '"' {
        let inner = query.substring_char(a + 1, b - 1);
        assert(inner@ =~= trimmed(query@).subrange(1, trimmed(query@).len() - 1));
        Some(inner)
    } else {
        None
    }
}

/// `s` with each double quote doubled, as inside an FTS5 string.
pub open spec fn escape_quotes(s: Seq<char>) -> Seq<char>
    decreases s.len(),
{
    if s.len() == 0 {
        Seq::empty()
    } else {
        escape_quotes(s.drop_last()) + (if s.last() == '"' {
            seq!['"', '"']
        } else {
            seq![s.last()]
        })
    }
}

/// `s` as an FTS5 phrase: in double quotes, its own double quotes doubled.
pub open spec fn fts_phrase_spec(s: Seq<char>) -> Seq<char> {
    seq!['"'] + escape_quotes(s) + seq!['"']
}

/// `text` as an FTS5 phrase (see [`fts_phrase_spec`]).
pub fn fts_phrase(text: &str) -> (r: String)
    ensures
        r@ == fts_phrase_spec(text@),
{
    let cs = chars_of(text);
    let mut out: Vec<char> = Vec::new();
    out.push('"');
    let mut i: usize = 0;
    while i < cs.len()
        invariant
            i <= cs@.len(),
            out@ == seq!['"'] + escape_quotes(cs@.take(i as int)),
        decreases cs@.len() - i,
    {
        assert(cs@.take(i + 1).drop_last() =~= cs@.take(i as int));
        if cs[i] == '"' {
            out.push('"');
            out.push('"');
        } else {
            out.push(cs[i]);
        }
        i = i + 1;
        assert(out@ =~= seq!['"'] + escape_quotes(cs@.take(i as int)));
    }
    out.push('"');
    assert(cs@.take(cs@.len() as int) =~= cs@);
    string_of(&out)
}

/// The parts, with `sep` between each two.
pub open spec fn joined(parts: Seq<Seq<char>>, sep: Seq<char>) -> Seq<char>
    decreases parts.len(),
{
    if parts.len() == 0 {
        Seq::empty()
    } else if parts.len() == 1 {
        parts[0]
    } else {
        joined(parts.drop_last(), sep) + sep + parts.last()
    }
}

/// The parts, with `sep` between each two.
fn join_parts(parts: &Vec<String>, sep: &str) -> (r: String)
    ensures
        r@ == joined(string_views(parts@), sep@),
{
    let mut out = String::new();
    let mut i: usize = 0;
    while i < parts.len()
        invariant
            i <= parts@.len(),
            out@ == joined(string_views(parts@.take(i as int)), sep@),
        decreases parts@.len() - i,
    {
        assert(string_views(parts@.take(i + 1)).drop_last() =~= string_views(parts@.take(i as int)));
        if i > 0 {
            out.append(sep);
        }
        out.append(parts[i].as_str());
        i = i + 1;
    }
    assert(parts@.take(parts@.len() as int) =~= parts@);
    out
}

/// The FTS5 phrases of the words.
pub open spec fn phrases(words: Seq<Seq<char>>) -> Seq<Seq<char>> {
    words.map_values(|w: Seq<char>| fts_phrase_spec(w))
}

/// The FTS5 phrases of the words of a normalized text.
fn word_phrases(text: &str) -> (r: Vec<String>)
    ensures
        string_views(r@) == phrases(tokens(Separators::Whitespace, text@)),
{
    let words = split_tokens(text, Separators::Whitespace);
    let mut out: Vec<String> = Vec::new();
    let mut i: usize = 0;
    while i < words.len()
        invariant
            i <= words@.len(),
            words@.len() == tokens(Separators::Whitespace, text@).len(),
            forall|k: int| 0 <= k < words@.len() ==> #[trigger] words@[k]@ == tokens(Separators::Whitespace, text@)[k],
            out@.len() == i,
            forall|k: int| 0 <= k < i ==> #[trigger] out@[k]@ == fts_phrase_spec(tokens(Separators::Whitespace, text@)[k]),
        decreases words@.len() - i,
    {
        out.push(fts_phrase(words[i]));
        i = i + 1;
    }
    assert(string_views(out@) =~= phrases(tokens(Separators::Whitespace, text@)));
    out
}

/// How many candidates each channel fetches for `max_results` hits: four per hit, at
/// most 400.
pub open spec fn candidate_limit_spec(max_results: nat) -> nat {
    if 4 * max_results <= 400 {
        4 * max_results
    } else {
        400
    }
}

/// How many candidates each channel fetches for `max_results` hits (see
/// [`candidate_limit_spec`]). More than 400 hits cannot be asked for.
pub fn candidate_limit(max_results: usize) -> (r: usize)
    requires
        max_results <= 400,
    ensures
        r == candidate_limit_spec(max_results as nat),
{
    let wanted = max_results * 4;
    if wanted > 400 {
        400
    } else {
        wanted
    }
}

/// The typo variants kept: in order, those that are not empty and differ from the query,
/// at most `cap` of them.
pub open spec fn typo_kept(query: Seq<char>, vs: Seq<Seq<char>>, cap: nat) -> Seq<Seq<char>>
    decreases vs.len(),
{
    if vs.len() == 0 || cap == 0 {
        Seq::empty()
    } else if vs[0].len() > 0 && vs[0] != query {
        seq![vs[0]] + typo_kept(query, vs.drop_first(), (cap - 1) as nat)
    } else {
        typo_kept(query, vs.drop_first(), cap)
    }
}

/// The typo channel's expression: the normalized variants, then the normalized
/// corrected query, kept as [`typo_kept`] says with at most `EXPANDED_MAX_VARIANTS`,
/// each as a phrase, joined with `OR`.
pub open spec fn typo_expression_spec(query: Seq<char>, variants: Seq<Seq<char>>, corrected: Seq<char>) -> Seq<char> {
    joined(
        phrases(
            typo_kept(
                query,
                variants.map_values(|v: Seq<char>| normalized(v)).push(normalized(corrected)),
                EXPANDED_MAX_VARIANTS as nat,
            ),
        ),
        " OR "@,
    )
}

/// The typo channel's expression for a normalized query (see [`typo_expression_spec`]).
pub fn typo_expression(query: &str, variants: &Vec<String>, corrected: &str) -> (r: String)
    ensures
        r@ == typo_expression_spec(query@, string_views(variants@), corrected@),
{
    let ghost all = string_views(variants@).map_values(|v: Seq<char>| normalized(v)).push(normalized(corrected@));
    let mut candidates: Vec<String> = Vec::new();
    let mut i: usize = 0;
    while i < variants.len()
        invariant
            i <= variants@.len(),
            string_views(candidates@) == all.take(i as int),
            all == string_views(variants@).map_values(|v: Seq<char>| normalized(v)).push(normalized(corrected@)),
        decreases variants@.len() - i,
    {
        let ghost before = candidates@;
        assert(all.take(i as int).len() == i);
        assert(before.len() == string_views(before).len());
        candidates.push(normalize_text(variants[i].as_str()));
        assert(all[i as int] == normalized(variants@[i as int]@));
        assert forall|k: int| 0 <= k < i implies #[trigger] candidates@[k]@ == all[k] by {
            assert(candidates@[k] == before[k]);
            assert(string_views(before)[k] == all.take(i as int)[k]);
        }
        i = i + 1;
        assert(string_views(candidates@) =~= all.take(i as int));
    }
    let ghost before = candidates@;
    assert(all.take(variants@.len() as int).len() == variants@.len());
    assert(before.len() == string_views(before).len());
    candidates.push(normalize_text(corrected));
    assert forall|k: int| 0 <= k < variants@.len() implies #[trigger] candidates@[k]@ == all[k] by {
        assert(candidates@[k] == before[k]);
        assert(string_views(before)[k] == all.take(variants@.len() as int)[k]);
    }
    assert(string_views(candidates@) =~= all);
    let mut kept: Vec<String> = Vec::new();
    let mut j: usize = 0;
    assert(all.skip(0) =~= all);
    assert(string_views(kept@) =~= Seq::empty());
    while j < candidates.len() && kept.len() < EXPANDED_MAX_VARIANTS
        invariant
            j <= candidates@.len(),
            string_views(candidates@) == all,
            kept@.len() <= EXPANDED_MAX_VARIANTS,
            string_views(kept@) + phrases(
                typo_kept(query@, all.skip(j as int), (EXPANDED_MAX_VARIANTS - kept@.len()) as nat),
            ) == phrases(typo_kept(query@, all, EXPANDED_MAX_VARIANTS as nat)),
        decreases candidates@.len() - j,
    {
        let c = &candidates[j];
        let ghost rest = all.skip(j as int);
        let ghost cap = (EXPANDED_MAX_VARIANTS - kept@.len()) as nat;
        assert(rest.drop_first() =~= all.skip(j + 1));
        assert(rest[0] == c@);
        if c.unicode_len() > 0 && !str_eq(c.as_str(), query) {
            let ghost before = string_views(kept@);
            kept.push(fts_phrase(c.as_str()));
            assert(string_views(kept@) =~= before.push(fts_phrase_spec(c@)));
            assert(phrases(seq![c@] + typo_kept(query@, rest.drop_first(), (cap - 1) as nat)) =~= seq![
                fts_phrase_spec(c@),
            ] + phrases(typo_kept(query@, rest.drop_first(), (cap - 1) as nat)));
            assert(string_views(kept@) + phrases(typo_kept(query@, all.skip(j + 1), (cap - 1) as nat)) =~= before
                + phrases(typo_kept(query@, rest, cap)));
        }
        j = j + 1;
    }
    assert(all.skip(j as int).len() == 0 || kept@.len() == EXPANDED_MAX_VARIANTS);
    assert(typo_kept(query@, all.skip(j as int), (EXPANDED_MAX_VARIANTS - kept@.len()) as nat) =~= Seq::empty());
    assert(string_views(kept@) =~= phrases(typo_kept(query@, all, EXPANDED_MAX_VARIANTS as nat)));
    join_parts(&kept, " OR ")
}

} // verus!

verus! {

/// The lexical channels of a search on the enriched index.
#[derive(Clone, Copy, Debug, PartialEq, Eq, Structural)]
pub enum LexicalChannel {
    /// The query was a quoted phrase: that phrase anywhere.
    Phrase,
    /// The whole query as a phrase in the primary name.
    PrimaryPhrase,
    /// Every word of the query.
    AllTokens,
    /// Any word of the query.
    AnyToken,
    /// Any typo-corrected variant of the query as a phrase.
    Typo,
}

impl LexicalChannel {
    pub open spec fn provider_id_spec(self) -> Seq<char> {
        match self {
            LexicalChannel::Phrase => "lexical.phrase"@,
            LexicalChannel::PrimaryPhrase => "lexical.primary_phrase"@,
            LexicalChannel::AllTokens => "lexical.all_tokens"@,
            LexicalChannel::AnyToken => "lexical.any_token"@,
            LexicalChannel::Typo => "lexical.typo"@,
        }
    }

    /// The provider id under which the channel's candidates are fused.
    pub fn provider_id(self) -> (r: &'static str)
        ensures
            r@ == self.provider_id_spec(),
    {
        match self {
            LexicalChannel::Phrase => "lexical.phrase",
            LexicalChannel::PrimaryPhrase => "lexical.primary_phrase",
            LexicalChannel::AllTokens => "lexical.all_tokens",
            LexicalChannel::AnyToken => "lexical.any_token",
            LexicalChannel::Typo => "lexical.typo",
        }
    }
}

/// One channel's FTS5 match expression.
#[derive(Clone, Debug)]
pub struct ChannelQuery {
    pub channel: LexicalChannel,
    pub expression: String,
}

/// The text a search on the enriched index goes by: the quoted phrase if the query is
/// one, else the query, normalized.
pub open spec fn searched_text(q: Seq<char>) -> Seq<char> {
    normalized(
        match quoted_inner(q) {
            Some(p) => p,
            None => q,
        },
    )
}

/// The channels searched for `query`, with their match expressions. A query whose text
/// normalizes to nothing is not searched. A quoted phrase is searched as that phrase
/// alone. Any other query is searched as a phrase in the primary name, by all of its
/// words, by any of them, and, where it has any, by its typo-corrected variants.
pub fn lexical_channels(vocabulary: &Vocabulary, max_distance: usize, query: &str) -> (r: Vec<ChannelQuery>)
    requires
        vocabulary.wf(),
        max_distance <= isize::MAX,
    ensures
        ({
            let n = searched_text(query@);
            &&& n.len() == 0 ==> r@.len() == 0
            &&& n.len() > 0 && quoted_inner(query@) is Some ==> r@.len() == 1 && r@[0].channel
                == LexicalChannel::Phrase && r@[0].expression@ == fts_phrase_spec(n)
            &&& n.len() > 0 && quoted_inner(query@) is None ==> {
                &&& 3 <= r@.len() <= 4
                &&& r@[0].channel == LexicalChannel::PrimaryPhrase
                &&& r@[0].expression@ == "primary_name : "@ + fts_phrase_spec(n)
                &&& r@[1].channel == LexicalChannel::AllTokens
                &&& r@[1].expression@ == joined(phrases(tokens(Separators::Whitespace, n)), " AND "@)
                &&& r@[2].channel == LexicalChannel::AnyToken
                &&& r@[2].expression@ == joined(phrases(tokens(Separators::Whitespace, n)), " OR "@)
                &&& exists|vs: Seq<Seq<char>>| #[trigger] is_expansion(vocabulary@, n, max_distance as nat, vs) && {
                    let typo = typo_expression_spec(
                        n,
                        vs,
                        corrected_spec(vocabulary@, n, max_distance as nat),
                    );
                    &&& r@.len() == 3 ==> typo.len() == 0
                    &&& r@.len() == 4 ==> typo.len() > 0 && r@[3].channel == LexicalChannel::Typo
                        && r@[3].expression@ == typo
                }
            }
        }),
{
    let explicit = quoted_phrase(query);
    let text = match explicit {
        Some(p) => normalize_text(p),
        None => normalize_text(query),
    };
    let mut channels: Vec<ChannelQuery> = Vec::new();
    if text.unicode_len() == 0 {
        return channels;
    }
    if explicit.is_some() {
        channels.push(ChannelQuery { channel: LexicalChannel::Phrase, expression: fts_phrase(text.as_str()) });
        return channels;
    }
    let mut primary = String::from_str("primary_name : ");
    primary.append(fts_phrase(text.as_str()).as_str());
    channels.push(ChannelQuery { channel: LexicalChannel::PrimaryPhrase, expression: primary });
    let words = word_phrases(text.as_str());
    channels.push(ChannelQuery { channel: LexicalChannel::AllTokens, expression: join_parts(&words, " AND ") });
    channels.push(ChannelQuery { channel: LexicalChannel::AnyToken, expression: join_parts(&words, " OR ") });
    let corrected = correct_with_vocabulary(vocabulary, text.as_str(), max_distance);
    let variants = expanded_query_variants(vocabulary, text.as_str(), max_distance);
    let typo = typo_expression(text.as_str(), &variants, corrected.as_str());
    let ghost vs = string_views(variants@);
    if typo.unicode_len() > 0 {
        channels.push(ChannelQuery { channel: LexicalChannel::Typo, expression: typo });
    }
    proof {
        reveal_strlit("primary_name : ");
        assert(typo_expression_spec(text@, vs, corrected_spec(vocabulary@, text@, max_distance as nat)) == typo@);
    }
    channels
}

} // verus!
