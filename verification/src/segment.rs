use vstd::prelude::*;

use crate::entries::DictionaryEntry;
use crate::index::Dictionary;

verus! {

/// The longest surface the segmenter will try, one more than the
/// longest name in the corpus.
pub const LONGEST_POSSIBLE_WORD: usize = 42;

/// One recognized span of a sentence and its ranked interpretations.
pub struct ParsedWord<'a> {
    pub word: String,
    pub interpretations: Vec<&'a DictionaryEntry>,
}

impl<'a> ParsedWord<'a> {
    pub fn create(word: String, interpretations: Vec<&'a DictionaryEntry>) -> (r: ParsedWord<'a>)
        ensures
            r.word == word,
            r.interpretations == interpretations,
    {
        ParsedWord { word, interpretations }
    }
}

/// A sentence and its decomposition into recognized spans, or the
/// failure sentinel when some position matched nothing.
pub struct Sentence<'a> {
    pub raw: String,
    pub decomposition: Option<Vec<ParsedWord<'a>>>,
    pub id: u32,
}

impl<'a> Sentence<'a> {
    pub fn create(raw: String, decomposition: Option<Vec<ParsedWord<'a>>>, id: u32) -> (r:
        Sentence<'a>)
        ensures
            r.raw == raw,
            r.decomposition == decomposition,
            r.id == id,
    {
        Sentence { raw, decomposition, id }
    }
}

/// The positions among the given ones whose entry's primary surface is
/// the word; with strictness off, all of them.
pub open spec fn spec_filter_primary(
    entries: Seq<DictionaryEntry>,
    p: Seq<int>,
    word: Seq<char>,
    strict: bool,
) -> Seq<int>
    decreases p.len(),
{
    if p.len() == 0 {
        Seq::empty()
    } else {
        spec_filter_primary(entries, p.drop_last(), word, strict) + if !strict
            || entries[p.last()].spec_primary_word() == word {
            seq![p.last()]
        } else {
            Seq::empty()
        }
    }
}

/// What the segmenter's lookup returns for a candidate span: the word
/// and name entries for the span, kept only when their primary surface
/// is the span itself under strict matching, ranked.
pub open spec fn spec_query_words_names(d: Dictionary, word: Seq<char>, strict: bool) -> Seq<
    int,
> {
    spec_filter_primary(
        d.entries@,
        d.spec_query_with_flags(word, seq!["#word"@, "#name"@]),
        word,
        strict,
    )
}

/// Looks a candidate span up among words and names; under strict
/// matching only entries listed under exactly that surface stay.
pub fn query_words_names<'a>(d: &Dictionary<'a>, word: &str, strict: bool) -> (r: Vec<
    &'a DictionaryEntry,
>)
    requires
        d.wf(),
    ensures
        r@.len() == spec_query_words_names(*d, word@, strict).len(),
        forall|m: int|
            0 <= m < r@.len() ==> *#[trigger] r@[m] == d.entries@[spec_query_words_names(
                *d,
                word@,
                strict,
            )[m]],
{
    let mut flags: Vec<String> = Vec::new();
    flags.push("#word".to_owned());
    flags.push("#name".to_owned());
    proof {
        assert(crate::conjugation::tag_views(flags@) =~= seq!["#word"@, "#name"@]);
    }
    let candidates = d.query_with_flags(word, &flags);
    let ghost cp = d.spec_query_with_flags(word@, seq!["#word"@, "#name"@]);
    let mut out: Vec<&'a DictionaryEntry> = Vec::new();
    let mut m: usize = 0;
    proof {
        assert(cp.subrange(0, 0) =~= Seq::<int>::empty());
    }
    while m < candidates.len()
        invariant
            0 <= m <= candidates@.len(),
            candidates@.len() == cp.len(),
            forall|p: int| 0 <= p < cp.len() ==> *#[trigger] candidates@[p] == d.entries@[cp[p]],
            out@.len() == spec_filter_primary(d.entries@, cp.subrange(0, m as int), word@, strict).len(),
            forall|p: int|
                0 <= p < out@.len() ==> *#[trigger] out@[p] == d.entries@[spec_filter_primary(
                    d.entries@,
                    cp.subrange(0, m as int),
                    word@,
                    strict,
                )[p]],
        decreases candidates@.len() - m,
    {
        proof {
            assert(cp.subrange(0, m as int + 1).drop_last() =~= cp.subrange(0, m as int));
            assert(cp.subrange(0, m as int + 1).last() == cp[m as int]);
        }
        let candidate = candidates[m];
        let keep = if strict {
            crate::strutil::str_eq(candidate.primary_word().as_str(), word)
        } else {
            true
        };
        if keep {
            out.push(candidate);
        }
        m += 1;
    }
    proof {
        assert(cp.subrange(0, cp.len() as int) =~= cp);
    }
    out
}

/// The longest span starting at a position that the index knows, tried
/// from the given inclusive end downward.
pub open spec fn spec_extract_at(
    d: Dictionary,
    s: Seq<char>,
    start: int,
    end: int,
    strict: bool,
) -> Option<(Seq<char>, int)>
    decreases end - start + 1,
{
    if end < start {
        None
    } else if spec_query_words_names(d, s.subrange(start, end + 1), strict).len() > 0 {
        Some((s.subrange(start, end + 1), end))
    } else {
        spec_extract_at(d, s, start, end - 1, strict)
    }
}

/// The upper inclusive end the window allows at a position.
pub open spec fn spec_window_end(s: Seq<char>, start: int) -> int {
    if s.len() < start + LONGEST_POSSIBLE_WORD as int {
        s.len() - 1
    } else {
        start + LONGEST_POSSIBLE_WORD as int - 1
    }
}

/// What the longest-match lookup finds at a position.
pub open spec fn spec_extract_word_at_index(
    d: Dictionary,
    s: Seq<char>,
    start: int,
    strict: bool,
) -> Option<(Seq<char>, int)> {
    spec_extract_at(d, s, start, spec_window_end(s, start), strict)
}

proof fn lemma_extract_at_range(d: Dictionary, s: Seq<char>, start: int, end: int, strict: bool)
    requires
        end < s.len(),
    ensures
        spec_extract_at(d, s, start, end, strict) matches Some(found) ==> start <= found.1 <= end
            && found.0 == s.subrange(start, found.1 + 1),
    decreases end - start + 1,
{
    if end >= start {
        if spec_query_words_names(d, s.subrange(start, end + 1), strict).len() > 0 {
        } else {
            lemma_extract_at_range(d, s, start, end - 1, strict);
        }
    }
}

/// Finds the longest recognized span at a position: candidate ends run
/// from the window limit down to the position itself, and the first
/// non-empty lookup wins.
pub fn extract_word_at_index<'a>(
    d: &Dictionary<'a>,
    string: &str,
    start_index: usize,
    strict: bool,
) -> (r: Option<(ParsedWord<'a>, usize)>)
    requires
        d.wf(),
        start_index < string@.len(),
    ensures
        r is Some <==> spec_extract_word_at_index(*d, string@, start_index as int, strict)
            is Some,
        r matches Some(found) ==> {
            let chosen = spec_extract_word_at_index(*d, string@, start_index as int, strict)->Some_0;
            &&& found.0.word@ == chosen.0
            &&& found.1 as int == chosen.1
            &&& start_index <= found.1 < string@.len()
            &&& found.0.word@ == string@.subrange(start_index as int, found.1 as int + 1)
            &&& found.0.interpretations@.len() == spec_query_words_names(
                *d,
                found.0.word@,
                strict,
            ).len()
            &&& found.0.interpretations@.len() > 0
            &&& forall|m: int|
                0 <= m < found.0.interpretations@.len()
                    ==> *#[trigger] found.0.interpretations@[m] == d.entries@[spec_query_words_names(
                    *d,
                    found.0.word@,
                    strict,
                )[m]]
        },
{
    let n = string.unicode_len();
    let upper: usize = if n - start_index < LONGEST_POSSIBLE_WORD {
        n - 1
    } else {
        start_index + LONGEST_POSSIBLE_WORD - 1
    };
    let mut candidate: usize = upper + 1;
    while candidate > start_index
        invariant
            d.wf(),
            n == string@.len(),
            start_index < n,
            start_index <= candidate <= upper + 1,
            upper as int == spec_window_end(string@, start_index as int),
            upper < n,
            spec_extract_word_at_index(*d, string@, start_index as int, strict)
                == spec_extract_at(
                *d,
                string@,
                start_index as int,
                candidate as int - 1,
                strict,
            ),
        decreases candidate,
    {
        let end = candidate - 1;
        let piece = string.substring_char(start_index, end + 1);
        let found = query_words_names(d, piece, strict);
        if found.len() > 0 {
            let owned = piece.to_owned();
            proof {
                lemma_extract_at_range(*d, string@, start_index as int, end as int, strict);
            }
            return Some((ParsedWord::create(owned, found), end));
        }
        candidate -= 1;
    }
    None
}

/// The surfaces of a span list, chained.
pub open spec fn concat_surfaces(ws: Seq<Seq<char>>) -> Seq<char>
    decreases ws.len(),
{
    if ws.len() == 0 {
        Seq::empty()
    } else {
        concat_surfaces(ws.drop_last()) + ws.last()
    }
}

/// Whether one span of the list is the greedy longest match at the
/// position where the previous spans end, with correct ranked
/// interpretations.
pub open spec fn span_ok(
    d: Dictionary,
    s: Seq<char>,
    words: Seq<ParsedWord>,
    k: int,
    strict: bool,
) -> bool {
    let pos = concat_surfaces(
        words.subrange(0, k).map_values(|p: ParsedWord| p.word@),
    ).len() as int;
    &&& spec_extract_word_at_index(d, s, pos, strict) matches Some(found)
    &&& words[k].word@ == found.0
    &&& words[k].interpretations@.len() == spec_query_words_names(
        d,
        words[k].word@,
        strict,
    ).len()
    &&& forall|m: int|
        0 <= m < words[k].interpretations@.len() ==> *#[trigger] words[k].interpretations@[m]
            == d.entries@[spec_query_words_names(d, words[k].word@, strict)[m]]
}

/// Whether each span of the list is the greedy longest match at the
/// position where the previous spans end.
pub open spec fn spans_are_greedy(
    d: Dictionary,
    s: Seq<char>,
    words: Seq<ParsedWord>,
    strict: bool,
) -> bool {
    forall|k: int| 0 <= k < words.len() ==> #[trigger] span_ok(d, s, words, k, strict)
}


/// The spans the greedy decomposition yields from a position, or
/// nothing when some reached position has no match. The fuel only
/// bounds the recursion; any amount above the remaining length gives
/// the same answer.
pub open spec fn spec_greedy_segments(
    d: Dictionary,
    s: Seq<char>,
    i: int,
    strict: bool,
    fuel: nat,
) -> Option<Seq<Seq<char>>>
    decreases fuel,
{
    if i == s.len() {
        Some(Seq::empty())
    } else if !(0 <= i < s.len()) || fuel == 0 {
        None
    } else {
        match spec_extract_word_at_index(d, s, i, strict) {
            Some(found) => if i <= found.1 < s.len() {
                match spec_greedy_segments(d, s, found.1 + 1, strict, (fuel - 1) as nat) {
                    Some(rest) => Some(seq![found.0] + rest),
                    None => None,
                }
            } else {
                None
            },
            None => None,
        }
    }
}

proof fn lemma_greedy_fuel(d: Dictionary, s: Seq<char>, i: int, strict: bool, f1: nat, f2: nat)
    requires
        0 <= i <= s.len(),
        f1 >= s.len() - i + 1,
        f2 >= s.len() - i + 1,
    ensures
        spec_greedy_segments(d, s, i, strict, f1) == spec_greedy_segments(d, s, i, strict, f2),
    decreases f1,
{
    if i < s.len() {
        match spec_extract_word_at_index(d, s, i, strict) {
            Some(found) => {
                lemma_extract_at_range(d, s, i, spec_window_end(s, i), strict);
                if i <= found.1 < s.len() {
                    lemma_greedy_fuel(
                        d,
                        s,
                        found.1 + 1,
                        strict,
                        (f1 - 1) as nat,
                        (f2 - 1) as nat,
                    );
                }
            },
            None => {},
        }
    }
}

/// What decomposing a whole sentence yields.
pub open spec fn spec_segmentation(d: Dictionary, s: Seq<char>, strict: bool) -> Option<
    Seq<Seq<char>>,
> {
    spec_greedy_segments(d, s, 0, strict, (s.len() + 1) as nat)
}

#[verifier::rlimit(60)]
proof fn lemma_spans_push(
    d: Dictionary,
    s: Seq<char>,
    pre: Seq<ParsedWord>,
    newp: ParsedWord,
    strict: bool,
    index: int,
)
    requires
        0 <= index <= s.len(),
        spans_are_greedy(d, s, pre, strict),
        concat_surfaces(pre.map_values(|p: ParsedWord| p.word@)) == s.subrange(0, index),
        spec_extract_word_at_index(d, s, index, strict) matches Some(found) && newp.word@
            == found.0,
        newp.interpretations@.len() == spec_query_words_names(d, newp.word@, strict).len(),
        forall|m: int|
            0 <= m < newp.interpretations@.len() ==> *#[trigger] newp.interpretations@[m]
                == d.entries@[spec_query_words_names(d, newp.word@, strict)[m]],
    ensures
        spans_are_greedy(d, s, pre.push(newp), strict),
{
    let words = pre.push(newp);
    assert forall|k: int| 0 <= k < words.len() implies #[trigger] span_ok(
        d,
        s,
        words,
        k,
        strict,
    ) by {
        assert(words.subrange(0, k).map_values(|p: ParsedWord| p.word@) =~= pre.subrange(
            0,
            k,
        ).map_values(|p: ParsedWord| p.word@));
        if k < pre.len() {
            assert(span_ok(d, s, pre, k, strict));
            assert(words[k] == pre[k]);
        } else {
            assert(words[k] == newp);
            assert(pre.subrange(0, k) =~= pre);
            assert(s.subrange(0, index).len() == index);
            assert(concat_surfaces(words.subrange(0, k).map_values(|p: ParsedWord| p.word@)).len()
                as int == index);
        }
    }
}

/// Decomposes a sentence by repeated longest match. On success the
/// surfaces concatenate back to exactly the sentence; a position with
/// no match fails the whole decomposition.
pub fn extract_words_sequentially<'a>(d: &Dictionary<'a>, string: &str, strict: bool) -> (r:
    Option<Vec<ParsedWord<'a>>>)
    requires
        d.wf(),
    ensures
        r is Some <==> spec_segmentation(*d, string@, strict) is Some,
        r matches Some(words) ==> Some(words@.map_values(|p: ParsedWord| p.word@))
            == spec_segmentation(*d, string@, strict),
        r matches Some(words) ==> concat_surfaces(
            words@.map_values(|p: ParsedWord| p.word@),
        ) == string@,
        r matches Some(words) ==> spans_are_greedy(*d, string@, words@, strict),
{
    let n = string.unicode_len();
    let mut index: usize = 0;
    let mut results: Vec<ParsedWord<'a>> = Vec::new();
    proof {
        assert(concat_surfaces(results@.map_values(|p: ParsedWord| p.word@)) =~= string@.subrange(
            0,
            0,
        ));
        match spec_greedy_segments(*d, string@, 0, strict, (n + 1) as nat) {
            Some(rest) => {
                assert(results@.map_values(|p: ParsedWord| p.word@) + rest =~= rest);
            },
            None => {},
        }
    }
    while index != n
        invariant
            d.wf(),
            n == string@.len(),
            0 <= index <= n,
            concat_surfaces(results@.map_values(|p: ParsedWord| p.word@)) == string@.subrange(
                0,
                index as int,
            ),
            spans_are_greedy(*d, string@, results@, strict),
            match spec_greedy_segments(
                *d,
                string@,
                index as int,
                strict,
                (n - index + 1) as nat,
            ) {
                Some(rest) => spec_segmentation(*d, string@, strict) == Some(
                    results@.map_values(|p: ParsedWord| p.word@) + rest,
                ),
                None => spec_segmentation(*d, string@, strict) is None,
            },
        decreases n - index,
    {
        let ghost pre = results@;
        let ghost pre_views = results@.map_values(|p: ParsedWord| p.word@);
        match extract_word_at_index(d, string, index, strict) {
            Some((parsed, end)) => {
                let ghost w = parsed.word@;
                let ghost newp = parsed;
                results.push(parsed);
                proof {
                    let views = results@.map_values(|p: ParsedWord| p.word@);
                    assert(results@ =~= pre.push(newp));
                    assert(views =~= pre_views.push(w));
                    assert(views.drop_last() =~= pre_views);
                    assert(concat_surfaces(views) == string@.subrange(0, end as int + 1)) by {
                        assert(string@.subrange(0, index as int) + string@.subrange(
                            index as int,
                            end as int + 1,
                        ) =~= string@.subrange(0, end as int + 1));
                    }
                    lemma_spans_push(*d, string@, pre, newp, strict, index as int);
                    lemma_greedy_fuel(
                        *d,
                        string@,
                        end as int + 1,
                        strict,
                        (n - index) as nat,
                        (n - end) as nat,
                    );
                    match spec_greedy_segments(
                        *d,
                        string@,
                        end as int + 1,
                        strict,
                        (n - end) as nat,
                    ) {
                        Some(rest) => {
                            assert(pre_views + (seq![w] + rest) =~= views + rest);
                        },
                        None => {},
                    }
                }
                index = end + 1;
            },
            None => {
                return None;
            },
        }
    }
    proof {
        assert(string@.subrange(0, n as int) =~= string@);
        match spec_greedy_segments(*d, string@, n as int, strict, 1nat) {
            Some(rest) => {
                assert(results@.map_values(|p: ParsedWord| p.word@) + rest =~= results@.map_values(
                    |p: ParsedWord| p.word@,
                ));
            },
            None => {},
        }
    }
    Some(results)
}

/// Parses one sentence: the decomposition when the greedy longest match
/// covers it, the failure sentinel otherwise.
pub fn parse_sentence<'a>(d: &Dictionary<'a>, sentence: &str, id: u32) -> (r: Sentence<'a>)
    requires
        d.wf(),
    ensures
        r.raw@ == sentence@,
        r.id == id,
        r.decomposition is Some <==> spec_segmentation(*d, sentence@, true) is Some,
        r.decomposition matches Some(words) ==> Some(
            words@.map_values(|p: ParsedWord| p.word@),
        ) == spec_segmentation(*d, sentence@, true),
        r.decomposition matches Some(words) ==> concat_surfaces(
            words@.map_values(|p: ParsedWord| p.word@),
        ) == sentence@,
        r.decomposition matches Some(words) ==> spans_are_greedy(*d, sentence@, words@, true),
{
    let decomposition = extract_words_sequentially(d, sentence, true);
    Sentence::create(sentence.to_owned(), decomposition, id)
}

} // verus!
