use vstd::prelude::*;

use crate::entries::DictionaryEntry;
use crate::entries::Query;
use crate::conjugation::tag_views;
use crate::strutil::lower_char;
use crate::strutil::push_char;
use crate::strutil::spec_lower_char;
use crate::strutil::str_eq;

verus! {

/// The position of the first key equal to the term.
pub open spec fn spec_key_index(keys: Seq<String>, term: Seq<char>) -> Option<int>
    decreases keys.len(),
{
    if keys.len() == 0 {
        None
    } else if keys[0]@ == term {
        Some(0)
    } else {
        match spec_key_index(keys.drop_first(), term) {
            Some(k) => Some(k + 1),
            None => None,
        }
    }
}

proof fn lemma_key_index_in_range(keys: Seq<String>, term: Seq<char>)
    ensures
        spec_key_index(keys, term) matches Some(k) ==> 0 <= k < keys.len() && keys[k]@ == term,
    decreases keys.len(),
{
    if keys.len() > 0 && !(keys[0]@ == term) {
        lemma_key_index_in_range(keys.drop_first(), term);
    }
}

proof fn lemma_key_index_push(keys: Seq<String>, fresh: String, term: Seq<char>)
    ensures
        spec_key_index(keys.push(fresh), term) == (match spec_key_index(keys, term) {
            Some(k) => Some(k),
            None => if fresh@ == term {
                Some(keys.len() as int)
            } else {
                None
            },
        }),
    decreases keys.len(),
{
    if keys.len() == 0 {
        assert(keys.push(fresh)[0] == fresh);
        assert(keys.push(fresh).drop_first() =~= Seq::<String>::empty());
    } else {
        assert(keys.push(fresh)[0] == keys[0]);
        assert(keys.push(fresh).drop_first() =~= keys.drop_first().push(fresh));
        lemma_key_index_push(keys.drop_first(), fresh, term);
    }
}

fn find_key(keys: &Vec<String>, term: &str) -> (r: Option<usize>)
    ensures
        match r {
            Some(k) => spec_key_index(keys@, term@) == Some(k as int),
            None => spec_key_index(keys@, term@) is None,
        },
{
    let mut i: usize = 0;
    proof {
        assert(keys@.skip(0) =~= keys@);
    }
    while i < keys.len()
        invariant
            0 <= i <= keys@.len(),
            spec_key_index(keys@, term@) == (match spec_key_index(keys@.skip(i as int), term@) {
                Some(k) => Some(k + i),
                None => None::<int>,
            }),
        decreases keys@.len() - i,
    {
        proof {
            assert(keys@.skip(i as int)[0] == keys@[i as int]);
            assert(keys@.skip(i as int).drop_first() =~= keys@.skip(i as int + 1));
        }
        if str_eq(keys[i].as_str(), term) {
            return Some(i);
        }
        i += 1;
    }
    None
}

/// The index repeated a number of times.
pub open spec fn repeat_index(i: int, n: int) -> Seq<int> {
    Seq::new(n as nat, |m: int| i)
}

/// How often the term occurs in the list.
pub open spec fn term_count(ts: Seq<Seq<char>>, term: Seq<char>) -> int
    decreases ts.len(),
{
    if ts.len() == 0 {
        0
    } else {
        term_count(ts.drop_last(), term) + if ts.last() == term {
            1int
        } else {
            0int
        }
    }
}

proof fn lemma_term_count_nonneg(ts: Seq<Seq<char>>, term: Seq<char>)
    ensures
        term_count(ts, term) >= 0,
    decreases ts.len(),
{
    if ts.len() > 0 {
        lemma_term_count_nonneg(ts.drop_last(), term);
    }
}

proof fn lemma_term_count_positive(ts: Seq<Seq<char>>, t: int)
    requires
        0 <= t < ts.len(),
    ensures
        term_count(ts, ts[t]) > 0,
    decreases ts.len(),
{
    lemma_term_count_nonneg(ts.drop_last(), ts[t]);
    if t < ts.len() - 1 {
        assert(ts.drop_last()[t] == ts[t]);
        lemma_term_count_positive(ts.drop_last(), t);
    }
}

/// The entry indices listed under a term: each entry in order, repeated
/// once per occurrence of the term among its searchable terms.
pub open spec fn spec_postings(entries: Seq<DictionaryEntry>, term: Seq<char>) -> Seq<int>
    decreases entries.len(),
{
    if entries.len() == 0 {
        Seq::empty()
    } else {
        spec_postings(entries.drop_last(), term) + repeat_index(
            entries.len() - 1,
            term_count(entries.last().spec_terms(), term),
        )
    }
}

pub proof fn lemma_postings_bounds(entries: Seq<DictionaryEntry>, term: Seq<char>)
    ensures
        forall|m: int|
            0 <= m < spec_postings(entries, term).len() ==> 0 <= #[trigger] spec_postings(
                entries,
                term,
            )[m] < entries.len(),
    decreases entries.len(),
{
    if entries.len() > 0 {
        lemma_postings_bounds(entries.drop_last(), term);
        let whole = spec_postings(entries, term);
        let front = spec_postings(entries.drop_last(), term);
        let back = repeat_index(
            entries.len() - 1,
            term_count(entries.last().spec_terms(), term),
        );
        assert forall|m: int| 0 <= m < whole.len() implies 0 <= #[trigger] whole[m]
            < entries.len() by {
            if m < front.len() {
                assert(whole[m] == front[m]);
            } else {
                assert(whole[m] == back[m - front.len()]);
            }
        }
    }
}

pub proof fn lemma_postings_contains(entries: Seq<DictionaryEntry>, term: Seq<char>, i: int)
    requires
        0 <= i < entries.len(),
        term_count(entries[i].spec_terms(), term) > 0,
    ensures
        spec_postings(entries, term).contains(i),
    decreases entries.len(),
{
    let whole = spec_postings(entries, term);
    let front = spec_postings(entries.drop_last(), term);
    let back = repeat_index(entries.len() - 1, term_count(entries.last().spec_terms(), term));
    if i == entries.len() - 1 {
        assert(back[0] == i);
        assert(whole[front.len() as int] == i);
    } else {
        assert(entries.drop_last()[i] == entries[i]);
        lemma_postings_contains(entries.drop_last(), term, i);
        let m = choose|m: int| 0 <= m < front.len() && front[m] == i;
        assert(whole[m] == i);
    }
}

/// The lists a key list and bucket list model: for a term among the
/// keys, the matching bucket; for any other term, nothing.
pub open spec fn model_of(keys: Seq<String>, buckets: Seq<Vec<usize>>, term: Seq<char>) -> Seq<
    int,
> {
    match spec_key_index(keys, term) {
        Some(k) => buckets[k]@.map_values(|x: usize| x as int),
        None => Seq::empty(),
    }
}

/// The inverted index: every entry is listed under each of its
/// searchable terms.
pub struct Dictionary<'a> {
    pub entries: &'a Vec<DictionaryEntry>,
    pub keys: Vec<String>,
    pub buckets: Vec<Vec<usize>>,
}

impl<'a> Dictionary<'a> {
    /// What the index holds for a term.
    pub open spec fn model_at(&self, term: Seq<char>) -> Seq<int> {
        model_of(self.keys@, self.buckets@, term)
    }

    /// The index lists under every term exactly the entries whose
    /// searchable terms hold it, in entry order.
    pub open spec fn wf(&self) -> bool {
        &&& self.keys@.len() == self.buckets@.len()
        &&& forall|term: Seq<char>|
            #[trigger] self.model_at(term) == spec_postings(self.entries@, term)
    }

    /// Builds the index over the given entries.
    pub fn create(entries: &'a Vec<DictionaryEntry>) -> (r: Dictionary<'a>)
        ensures
            r.wf(),
            r.entries == entries,
    {
        let mut keys: Vec<String> = Vec::new();
        let mut buckets: Vec<Vec<usize>> = Vec::new();
        let mut i: usize = 0;
        proof {
            assert(forall|term: Seq<char>|
                #[trigger] model_of(keys@, buckets@, term) =~= spec_postings(
                    entries@.subrange(0, 0),
                    term,
                ));
        }
        while i < entries.len()
            invariant
                0 <= i <= entries@.len(),
                keys@.len() == buckets@.len(),
                forall|term: Seq<char>|
                    #[trigger] model_of(keys@, buckets@, term) == spec_postings(
                        entries@.subrange(0, i as int),
                        term,
                    ),
            decreases entries@.len() - i,
        {
            let terms = entries[i].searchable_terms();
            let ghost tv = terms@.map_values(|s: String| s@);
            let ghost before = entries@.subrange(0, i as int);
            let mut j: usize = 0;
            proof {
                assert(forall|term: Seq<char>|
                    #[trigger] term_count(tv.subrange(0, 0), term) == 0);
                assert(forall|term: Seq<char>|
                    model_of(keys@, buckets@, term) + repeat_index(
                        i as int,
                        #[trigger] term_count(tv.subrange(0, 0), term),
                    ) =~= model_of(keys@, buckets@, term));
            }
            while j < terms.len()
                invariant
                    0 <= j <= tv.len(),
                    tv == terms@.map_values(|s: String| s@),
                    0 <= i < entries@.len(),
                    before == entries@.subrange(0, i as int),
                    keys@.len() == buckets@.len(),
                    forall|term: Seq<char>|
                        #[trigger] model_of(keys@, buckets@, term) == spec_postings(before, term)
                            + repeat_index(i as int, term_count(tv.subrange(0, j as int), term)),
                decreases tv.len() - j,
            {
                let ghost old_keys = keys@;
                let ghost old_buckets = buckets@;
                let ghost t = tv[j as int];
                proof {
                    assert(tv.subrange(0, j as int + 1).drop_last() =~= tv.subrange(0, j as int));
                    assert(tv.subrange(0, j as int + 1).last() == t);
                    assert(forall|term: Seq<char>|
                        #[trigger] term_count(tv.subrange(0, j as int + 1), term) == term_count(
                            tv.subrange(0, j as int),
                            term,
                        ) + if t == term {
                            1int
                        } else {
                            0int
                        });
                    lemma_key_index_in_range(keys@, t);
                }
                match find_key(&keys, terms[j].as_str()) {
                    Some(k) => {
                        let mut row = buckets.remove(k);
                        let ghost old_row = row@;
                        row.push(i);
                        buckets.insert(k, row);
                        proof {
                            assert(buckets@ =~= old_buckets.update(k as int, buckets@[k as int]));
                            assert(buckets@[k as int]@ =~= old_row.push(i));
                            assert forall|term: Seq<char>|
                                #[trigger] model_of(keys@, buckets@, term) == spec_postings(
                                    before,
                                    term,
                                ) + repeat_index(
                                    i as int,
                                    term_count(tv.subrange(0, j as int + 1), term),
                                ) by {
                                lemma_key_index_in_range(keys@, term);
                                lemma_term_count_nonneg(tv.subrange(0, j as int), term);
                                if term == t {
                                    let old_model = model_of(old_keys, old_buckets, term);
                                    let new_model = model_of(keys@, buckets@, term);
                                    assert(new_model =~= old_model.push(i as int)) by {
                                        assert(buckets@[k as int]@.map_values(|x: usize| x as int)
                                            =~= old_buckets[k as int]@.map_values(
                                            |x: usize| x as int,
                                        ).push(i as int));
                                    }
                                    assert(new_model =~= spec_postings(before, term)
                                        + repeat_index(
                                        i as int,
                                        term_count(tv.subrange(0, j as int), term) + 1,
                                    ));
                                } else {
                                    match spec_key_index(keys@, term) {
                                        Some(k2) => {
                                            assert(keys@[k2]@ == term);
                                            assert(k2 != k as int);
                                            assert(buckets@[k2] == old_buckets[k2]);
                                            assert(model_of(keys@, buckets@, term) =~= model_of(
                                                old_keys,
                                                old_buckets,
                                                term,
                                            ));
                                        },
                                        None => {
                                            assert(model_of(keys@, buckets@, term) =~= model_of(
                                                old_keys,
                                                old_buckets,
                                                term,
                                            ));
                                        },
                                    }
                                    assert(repeat_index(
                                        i as int,
                                        term_count(tv.subrange(0, j as int + 1), term),
                                    ) == repeat_index(
                                        i as int,
                                        term_count(tv.subrange(0, j as int), term),
                                    ));
                                }
                            }
                        }
                    },
                    None => {
                        keys.push(terms[j].clone());
                        let mut row: Vec<usize> = Vec::new();
                        row.push(i);
                        buckets.push(row);
                        proof {
                            assert(keys@ =~= old_keys.push(keys@[old_keys.len() as int]));
                            assert(keys@[old_keys.len() as int]@ == t);
                            assert forall|term: Seq<char>|
                                #[trigger] model_of(keys@, buckets@, term) == spec_postings(
                                    before,
                                    term,
                                ) + repeat_index(
                                    i as int,
                                    term_count(tv.subrange(0, j as int + 1), term),
                                ) by {
                                lemma_key_index_push(
                                    old_keys,
                                    keys@[old_keys.len() as int],
                                    term,
                                );
                                lemma_key_index_in_range(old_keys, term);
                                lemma_term_count_nonneg(tv.subrange(0, j as int), term);
                                if term == t {
                                    // The key was absent, so nothing was listed yet.
                                    assert(model_of(old_keys, old_buckets, term)
                                        == Seq::<int>::empty());
                                    assert(spec_postings(before, term) + repeat_index(
                                        i as int,
                                        term_count(tv.subrange(0, j as int), term),
                                    ) == Seq::<int>::empty());
                                    assert(spec_postings(before, term) =~= Seq::<int>::empty());
                                    assert(repeat_index(
                                        i as int,
                                        term_count(tv.subrange(0, j as int), term),
                                    ) =~= Seq::<int>::empty());
                                    assert(term_count(tv.subrange(0, j as int), term) == 0);
                                    assert(spec_key_index(keys@, term) == Some(
                                        old_keys.len() as int,
                                    ));
                                    assert(buckets@[old_keys.len() as int]@.map_values(
                                        |x: usize| x as int,
                                    ) =~= seq![i as int]);
                                    assert(model_of(keys@, buckets@, term) =~= spec_postings(
                                        before,
                                        term,
                                    ) + repeat_index(i as int, 1));
                                } else {
                                    match spec_key_index(old_keys, term) {
                                        Some(k2) => {
                                            assert(spec_key_index(keys@, term) == Some(k2));
                                            assert(buckets@[k2] == old_buckets[k2]);
                                            assert(model_of(keys@, buckets@, term) =~= model_of(
                                                old_keys,
                                                old_buckets,
                                                term,
                                            ));
                                        },
                                        None => {
                                            assert(spec_key_index(keys@, term) is None);
                                            assert(model_of(keys@, buckets@, term) =~= model_of(
                                                old_keys,
                                                old_buckets,
                                                term,
                                            ));
                                        },
                                    }
                                }
                            }
                        }
                    },
                }
                j += 1;
            }
            proof {
                assert(tv.subrange(0, tv.len() as int) =~= tv);
                assert(forall|term: Seq<char>|
                    #[trigger] spec_postings(entries@.subrange(0, i as int + 1), term)
                        == spec_postings(before, term) + repeat_index(
                        i as int,
                        term_count(tv, term),
                    )) by {
                    assert(entries@.subrange(0, i as int + 1).drop_last() =~= before);
                    assert(entries@.subrange(0, i as int + 1).last() == entries@[i as int]);
                }
            }
            i += 1;
        }
        proof {
            assert(entries@.subrange(0, entries@.len() as int) =~= entries@);
        }
        let d = Dictionary { entries, keys, buckets };
        proof {
            assert(forall|term: Seq<char>|
                #[trigger] d.model_at(term) == spec_postings(d.entries@, term));
        }
        d
    }

    /// The entries listed under exactly this key.
    pub fn get(&self, key: &str) -> (r: Vec<&'a DictionaryEntry>)
        requires
            self.wf(),
        ensures
            r@.len() == self.model_at(key@).len(),
            forall|m: int|
                0 <= m < r@.len() ==> *#[trigger] r@[m] == self.entries@[self.model_at(key@)[m]],
    {
        let mut out: Vec<&'a DictionaryEntry> = Vec::new();
        match find_key(&self.keys, key) {
            None => out,
            Some(k) => {
                proof {
                    lemma_key_index_in_range(self.keys@, key@);
                    lemma_postings_bounds(self.entries@, key@);
                }
                let row = &self.buckets[k];
                let mut m: usize = 0;
                while m < row.len()
                    invariant
                        0 <= m <= row@.len(),
                        self.wf(),
                        spec_key_index(self.keys@, key@) == Some(k as int),
                        0 <= (k as int) < self.buckets@.len(),
                        row == &self.buckets@[k as int],
                        out@.len() == m,
                        forall|p: int|
                            0 <= p < m ==> *#[trigger] out@[p] == self.entries@[self.model_at(
                                key@,
                            )[p]],
                    decreases row@.len() - m,
                {
                    proof {
                        lemma_postings_bounds(self.entries@, key@);
                        assert(self.model_at(key@)[m as int] == row@[m as int] as int);
                    }
                    let idx = row[m];
                    out.push(&self.entries[idx]);
                    m += 1;
                }
                out
            },
        }
    }
}

/// The lookups of several keys, chained.
pub open spec fn spec_lookup_all(d: Dictionary, keys: Seq<Seq<char>>) -> Seq<int>
    decreases keys.len(),
{
    if keys.len() == 0 {
        Seq::empty()
    } else {
        d.model_at(keys[0]) + spec_lookup_all(d, keys.drop_first())
    }
}

/// The positions among the given ones whose entry is, or is not, a
/// kanji entry.
pub open spec fn spec_filter_kind(
    entries: Seq<DictionaryEntry>,
    p: Seq<int>,
    keep_kanji: bool,
) -> Seq<int>
    decreases p.len(),
{
    if p.len() == 0 {
        Seq::empty()
    } else {
        spec_filter_kind(entries, p.drop_last(), keep_kanji) + if (entries[p.last()] is Kanji)
            == keep_kanji {
            seq![p.last()]
        } else {
            Seq::empty()
        }
    }
}

/// Whether the flags keep the entry at the position: no flags keep
/// everything, else the entry's kind flag must be among them.
pub open spec fn spec_flags_keep(
    entries: Seq<DictionaryEntry>,
    flags: Seq<Seq<char>>,
    idx: int,
) -> bool {
    flags.len() == 0 || flags.contains(entries[idx].spec_kind_flag())
}

/// The positions among the given ones whose entry the flags keep.
pub open spec fn spec_filter_flags(
    entries: Seq<DictionaryEntry>,
    p: Seq<int>,
    flags: Seq<Seq<char>>,
) -> Seq<int>
    decreases p.len(),
{
    if p.len() == 0 {
        Seq::empty()
    } else {
        spec_filter_flags(entries, p.drop_last(), flags) + if spec_flags_keep(
            entries,
            flags,
            p.last(),
        ) {
            seq![p.last()]
        } else {
            Seq::empty()
        }
    }
}

/// How many of the positions hold an entry that is not a radical.
pub open spec fn spec_non_radical_count(entries: Seq<DictionaryEntry>, p: Seq<int>) -> int
    decreases p.len(),
{
    if p.len() == 0 {
        0
    } else {
        spec_non_radical_count(entries, p.drop_last()) + if entries[p.last()] is Radical {
            0int
        } else {
            1int
        }
    }
}

/// The lookups of each character of the key, as one-character terms,
/// chained in order.
pub open spec fn spec_char_postings(d: Dictionary, q: Seq<char>) -> Seq<int>
    decreases q.len(),
{
    if q.len() == 0 {
        Seq::empty()
    } else {
        spec_char_postings(d, q.drop_last()) + d.model_at(seq![q.last()])
    }
}

/// The result order: rank ascending, ties by id ascending.
pub open spec fn le_entry(entries: Seq<DictionaryEntry>, a: int, b: int) -> bool {
    entries[a].spec_rank() < entries[b].spec_rank() || (entries[a].spec_rank()
        == entries[b].spec_rank() && entries[a].spec_id_key() <= entries[b].spec_id_key())
}

/// Stable insertion: the position goes after every earlier position
/// whose entry orders at or below it.
pub open spec fn spec_insert_by_rank(entries: Seq<DictionaryEntry>, sorted: Seq<int>, x: int) -> Seq<
    int,
>
    decreases sorted.len(),
{
    if sorted.len() == 0 {
        seq![x]
    } else if le_entry(entries, sorted.last(), x) {
        sorted.push(x)
    } else {
        spec_insert_by_rank(entries, sorted.drop_last(), x).push(sorted.last())
    }
}

/// Stable insertion sort of positions by entry rank.
pub open spec fn spec_sort_by_rank(entries: Seq<DictionaryEntry>, p: Seq<int>) -> Seq<int>
    decreases p.len(),
{
    if p.len() == 0 {
        Seq::empty()
    } else {
        spec_insert_by_rank(entries, spec_sort_by_rank(entries, p.drop_last()), p.last())
    }
}

proof fn lemma_insert_by_rank_bounds(
    entries: Seq<DictionaryEntry>,
    sorted: Seq<int>,
    x: int,
    bound: int,
)
    requires
        forall|m: int| 0 <= m < sorted.len() ==> 0 <= #[trigger] sorted[m] < bound,
        0 <= x < bound,
    ensures
        spec_insert_by_rank(entries, sorted, x).len() == sorted.len() + 1,
        forall|m: int|
            0 <= m < sorted.len() + 1 ==> 0 <= #[trigger] spec_insert_by_rank(entries, sorted, x)[m]
                < bound,
    decreases sorted.len(),
{
    if sorted.len() == 0 {
    } else if le_entry(entries, sorted.last(), x) {
    } else {
        lemma_insert_by_rank_bounds(entries, sorted.drop_last(), x, bound);
    }
}

proof fn lemma_sort_by_rank_bounds(entries: Seq<DictionaryEntry>, p: Seq<int>, bound: int)
    requires
        forall|m: int| 0 <= m < p.len() ==> 0 <= #[trigger] p[m] < bound,
    ensures
        spec_sort_by_rank(entries, p).len() == p.len(),
        forall|m: int|
            0 <= m < p.len() ==> 0 <= #[trigger] spec_sort_by_rank(entries, p)[m] < bound,
    decreases p.len(),
{
    if p.len() > 0 {
        lemma_sort_by_rank_bounds(entries, p.drop_last(), bound);
        lemma_insert_by_rank_bounds(entries, spec_sort_by_rank(entries, p.drop_last()), p.last(), bound);
    }
}

/// Inserting at the position found by scanning from the right yields
/// the stable insertion.
proof fn lemma_insert_at(entries: Seq<DictionaryEntry>, sorted: Seq<int>, x: int, pos: int)
    requires
        0 <= pos <= sorted.len(),
        forall|m: int| pos <= m < sorted.len() ==> !le_entry(entries, #[trigger] sorted[m], x),
        pos > 0 ==> le_entry(entries, sorted[pos - 1], x),
    ensures
        spec_insert_by_rank(entries, sorted, x) == sorted.subrange(0, pos) + seq![x]
            + sorted.subrange(pos, sorted.len() as int),
    decreases sorted.len(),
{
    if sorted.len() == 0 {
        assert(spec_insert_by_rank(entries, sorted, x) =~= sorted.subrange(0, 0) + seq![x]
            + sorted.subrange(0, 0));
    } else if le_entry(entries, sorted.last(), x) {
        assert(pos == sorted.len());
        assert(sorted.subrange(0, pos) =~= sorted);
        assert(spec_insert_by_rank(entries, sorted, x) =~= sorted.subrange(0, pos) + seq![x]
            + sorted.subrange(pos, sorted.len() as int));
    } else {
        assert(pos < sorted.len());
        let dl = sorted.drop_last();
        assert(forall|m: int| pos <= m < dl.len() ==> !le_entry(entries, #[trigger] dl[m], x));
        if pos > 0 {
            assert(dl[pos - 1] == sorted[pos - 1]);
        }
        lemma_insert_at(entries, dl, x, pos);
        assert(spec_insert_by_rank(entries, sorted, x) =~= sorted.subrange(0, pos) + seq![x]
            + sorted.subrange(pos, sorted.len() as int)) by {
            assert(spec_insert_by_rank(entries, sorted, x) == (dl.subrange(0, pos) + seq![x]
                + dl.subrange(pos, dl.len() as int)).push(sorted.last()));
            assert(dl.subrange(0, pos) =~= sorted.subrange(0, pos));
            assert(forall|m: int|
                0 <= m < dl.len() - pos ==> #[trigger] dl.subrange(pos, dl.len() as int)[m]
                    == sorted.subrange(pos, sorted.len() as int)[m]);
        }
    }
}

impl<'a> Dictionary<'a> {
    /// The positions listed under exactly this key.
    fn lookup_indices(&self, key: &str) -> (r: Vec<usize>)
        requires
            self.wf(),
        ensures
            r@.map_values(|x: usize| x as int) == self.model_at(key@),
            forall|m: int| 0 <= m < r@.len() ==> #[trigger] r@[m] < self.entries@.len(),
    {
        let mut out: Vec<usize> = Vec::new();
        proof {
            lemma_postings_bounds(self.entries@, key@);
        }
        match find_key(&self.keys, key) {
            None => {
                proof {
                    assert(out@.map_values(|x: usize| x as int) =~= self.model_at(key@));
                }
                out
            },
            Some(k) => {
                proof {
                    lemma_key_index_in_range(self.keys@, key@);
                }
                let row = &self.buckets[k];
                let mut m: usize = 0;
                while m < row.len()
                    invariant
                        0 <= m <= row@.len(),
                        self.wf(),
                        spec_key_index(self.keys@, key@) == Some(k as int),
                        0 <= (k as int) < self.buckets@.len(),
                        row == &self.buckets@[k as int],
                        out@.len() == m,
                        forall|p: int|
                            0 <= p < m ==> #[trigger] out@[p] as int == self.model_at(key@)[p],
                        forall|p: int| 0 <= p < m ==> #[trigger] out@[p] < self.entries@.len(),
                    decreases row@.len() - m,
                {
                    proof {
                        lemma_postings_bounds(self.entries@, key@);
                        assert(self.model_at(key@)[m as int] == row@[m as int] as int);
                    }
                    let idx = row[m];
                    out.push(idx);
                    m += 1;
                }
                proof {
                    assert(out@.map_values(|x: usize| x as int) =~= self.model_at(key@));
                }
                out
            },
        }
    }

    /// The positions listed under each of several keys, chained.
    fn lookup_all_indices(&self, keys: &Vec<String>) -> (r: Vec<usize>)
        requires
            self.wf(),
        ensures
            r@.map_values(|x: usize| x as int) == spec_lookup_all(*self, tag_views(keys@)),
            forall|m: int| 0 <= m < r@.len() ==> #[trigger] r@[m] < self.entries@.len(),
    {
        let ghost kv = tag_views(keys@);
        let mut out: Vec<usize> = Vec::new();
        let mut i: usize = 0;
        proof {
            assert(kv.skip(0) =~= kv);
            assert(out@.map_values(|x: usize| x as int) + spec_lookup_all(*self, kv)
                =~= spec_lookup_all(*self, kv));
        }
        while i < keys.len()
            invariant
                0 <= i <= kv.len(),
                kv == tag_views(keys@),
                self.wf(),
                spec_lookup_all(*self, kv) == out@.map_values(|x: usize| x as int)
                    + spec_lookup_all(*self, kv.skip(i as int)),
                forall|m: int| 0 <= m < out@.len() ==> #[trigger] out@[m] < self.entries@.len(),
            decreases kv.len() - i,
        {
            let ghost pre = out@.map_values(|x: usize| x as int);
            proof {
                assert(kv.skip(i as int)[0] == kv[i as int]);
                assert(kv.skip(i as int).drop_first() =~= kv.skip(i as int + 1));
            }
            let mut part = self.lookup_indices(keys[i].as_str());
            let ghost part_view = part@.map_values(|x: usize| x as int);
            out.append(&mut part);
            proof {
                assert(out@.map_values(|x: usize| x as int) =~= pre + part_view);
                assert((pre + part_view) + spec_lookup_all(*self, kv.skip(i as int + 1)) =~= pre
                    + (part_view + spec_lookup_all(*self, kv.skip(i as int + 1))));
            }
            i += 1;
        }
        proof {
            assert(kv.skip(kv.len() as int) =~= Seq::<Seq<char>>::empty());
            assert(out@.map_values(|x: usize| x as int) + Seq::<int>::empty() =~= out@.map_values(
                |x: usize| x as int,
            ));
        }
        out
    }

    /// Keeps the kanji positions, or the positions of every other kind.
    fn filter_kind_indices(&self, items: &Vec<usize>, keep_kanji: bool) -> (r: Vec<usize>)
        requires
            forall|m: int| 0 <= m < items@.len() ==> #[trigger] items@[m] < self.entries@.len(),
        ensures
            r@.map_values(|x: usize| x as int) == spec_filter_kind(
                self.entries@,
                items@.map_values(|x: usize| x as int),
                keep_kanji,
            ),
            forall|m: int| 0 <= m < r@.len() ==> #[trigger] r@[m] < self.entries@.len(),
    {
        let ghost iv = items@.map_values(|x: usize| x as int);
        let mut out: Vec<usize> = Vec::new();
        let mut m: usize = 0;
        proof {
            assert(iv.subrange(0, 0) =~= Seq::<int>::empty());
        }
        while m < items.len()
            invariant
                0 <= m <= iv.len(),
                iv == items@.map_values(|x: usize| x as int),
                forall|p: int| 0 <= p < iv.len() ==> #[trigger] items@[p] < self.entries@.len(),
                out@.map_values(|x: usize| x as int) == spec_filter_kind(
                    self.entries@,
                    iv.subrange(0, m as int),
                    keep_kanji,
                ),
                forall|p: int| 0 <= p < out@.len() ==> #[trigger] out@[p] < self.entries@.len(),
            decreases iv.len() - m,
        {
            let ghost pre = out@.map_values(|x: usize| x as int);
            proof {
                assert(iv.subrange(0, m as int + 1).drop_last() =~= iv.subrange(0, m as int));
                assert(iv.subrange(0, m as int + 1).last() == iv[m as int]);
            }
            let idx = items[m];
            let is_kanji = match &self.entries[idx] {
                DictionaryEntry::Kanji(_) => true,
                _ => false,
            };
            if is_kanji == keep_kanji {
                out.push(idx);
                proof {
                    assert(out@.map_values(|x: usize| x as int) =~= pre + seq![iv[m as int]]);
                }
            }
            m += 1;
        }
        proof {
            assert(iv.subrange(0, iv.len() as int) =~= iv);
        }
        out
    }

    /// How many of the positions hold an entry that is not a radical.
    fn non_radical_count(&self, items: &Vec<usize>) -> (r: usize)
        requires
            forall|m: int| 0 <= m < items@.len() ==> #[trigger] items@[m] < self.entries@.len(),
        ensures
            r as int == spec_non_radical_count(
                self.entries@,
                items@.map_values(|x: usize| x as int),
            ),
    {
        let ghost iv = items@.map_values(|x: usize| x as int);
        let mut count: usize = 0;
        let mut m: usize = 0;
        proof {
            assert(iv.subrange(0, 0) =~= Seq::<int>::empty());
        }
        while m < items.len()
            invariant
                0 <= m <= iv.len(),
                iv == items@.map_values(|x: usize| x as int),
                forall|p: int| 0 <= p < iv.len() ==> #[trigger] items@[p] < self.entries@.len(),
                count <= m,
                count as int == spec_non_radical_count(self.entries@, iv.subrange(0, m as int)),
            decreases iv.len() - m,
        {
            proof {
                assert(iv.subrange(0, m as int + 1).drop_last() =~= iv.subrange(0, m as int));
                assert(iv.subrange(0, m as int + 1).last() == iv[m as int]);
            }
            let idx = items[m];
            let is_radical = match &self.entries[idx] {
                DictionaryEntry::Radical(_) => true,
                _ => false,
            };
            if !is_radical {
                count += 1;
            }
            m += 1;
        }
        proof {
            assert(iv.subrange(0, iv.len() as int) =~= iv);
        }
        count
    }

    /// Whether the converted pair finds more non-radical entries than
    /// the original key.
    pub open spec fn spec_worth_converting(
        &self,
        query: Seq<char>,
        hiragana: Seq<char>,
        katakana: Seq<char>,
    ) -> bool {
        spec_non_radical_count(self.entries@, self.model_at(hiragana) + self.model_at(katakana))
            > spec_non_radical_count(self.entries@, self.model_at(query))
    }

    /// Decides the romaji fallback: conversion wins only when it finds
    /// strictly more non-radical entries; ties keep the original.
    pub fn worth_converting(&self, query: &str, hiragana: &str, katakana: &str) -> (r: bool)
        requires
            self.wf(),
        ensures
            r == self.spec_worth_converting(query@, hiragana@, katakana@),
    {
        let mut converted = self.lookup_indices(hiragana);
        let mut kata_part = self.lookup_indices(katakana);
        let ghost hira_view = converted@.map_values(|x: usize| x as int);
        let ghost kata_view = kata_part@.map_values(|x: usize| x as int);
        converted.append(&mut kata_part);
        proof {
            assert(converted@.map_values(|x: usize| x as int) =~= hira_view + kata_view);
        }
        let original = self.lookup_indices(query);
        let converted_count = self.non_radical_count(&converted);
        let original_count = self.non_radical_count(&original);
        converted_count > original_count
    }

    /// Keeps the positions whose entry kind the flags accept.
    fn filter_flags_indices(&self, items: &Vec<usize>, flags: &Vec<String>) -> (r: Vec<usize>)
        requires
            forall|m: int| 0 <= m < items@.len() ==> #[trigger] items@[m] < self.entries@.len(),
        ensures
            r@.map_values(|x: usize| x as int) == spec_filter_flags(
                self.entries@,
                items@.map_values(|x: usize| x as int),
                tag_views(flags@),
            ),
            forall|m: int| 0 <= m < r@.len() ==> #[trigger] r@[m] < self.entries@.len(),
    {
        let ghost iv = items@.map_values(|x: usize| x as int);
        let ghost fv = tag_views(flags@);
        let mut out: Vec<usize> = Vec::new();
        let mut m: usize = 0;
        proof {
            assert(iv.subrange(0, 0) =~= Seq::<int>::empty());
        }
        while m < items.len()
            invariant
                0 <= m <= iv.len(),
                iv == items@.map_values(|x: usize| x as int),
                fv == tag_views(flags@),
                forall|p: int| 0 <= p < iv.len() ==> #[trigger] items@[p] < self.entries@.len(),
                out@.map_values(|x: usize| x as int) == spec_filter_flags(
                    self.entries@,
                    iv.subrange(0, m as int),
                    fv,
                ),
                forall|p: int| 0 <= p < out@.len() ==> #[trigger] out@[p] < self.entries@.len(),
            decreases iv.len() - m,
        {
            let ghost pre = out@.map_values(|x: usize| x as int);
            proof {
                assert(iv.subrange(0, m as int + 1).drop_last() =~= iv.subrange(0, m as int));
                assert(iv.subrange(0, m as int + 1).last() == iv[m as int]);
            }
            let idx = items[m];
            let keep = if flags.len() == 0 {
                true
            } else {
                contains_string(flags, self.entries[idx].kind_flag())
            };
            if keep {
                out.push(idx);
                proof {
                    assert(out@.map_values(|x: usize| x as int) =~= pre + seq![iv[m as int]]);
                }
            }
            m += 1;
        }
        proof {
            assert(iv.subrange(0, iv.len() as int) =~= iv);
        }
        out
    }

    /// Sorts positions by entry rank, ties by id, stably.
    fn sort_indices(&self, items: Vec<usize>) -> (r: Vec<usize>)
        requires
            forall|m: int| 0 <= m < items@.len() ==> #[trigger] items@[m] < self.entries@.len(),
        ensures
            r@.map_values(|x: usize| x as int) == spec_sort_by_rank(
                self.entries@,
                items@.map_values(|x: usize| x as int),
            ),
            forall|m: int| 0 <= m < r@.len() ==> #[trigger] r@[m] < self.entries@.len(),
    {
        let ghost iv = items@.map_values(|x: usize| x as int);
        let mut out: Vec<usize> = Vec::new();
        let mut k: usize = 0;
        proof {
            assert(iv.subrange(0, 0) =~= Seq::<int>::empty());
        }
        while k < items.len()
            invariant
                0 <= k <= iv.len(),
                iv == items@.map_values(|x: usize| x as int),
                forall|p: int| 0 <= p < iv.len() ==> #[trigger] items@[p] < self.entries@.len(),
                out@.map_values(|x: usize| x as int) == spec_sort_by_rank(
                    self.entries@,
                    iv.subrange(0, k as int),
                ),
                forall|p: int| 0 <= p < out@.len() ==> #[trigger] out@[p] < self.entries@.len(),
            decreases iv.len() - k,
        {
            let ghost pre = out@.map_values(|x: usize| x as int);
            proof {
                assert(iv.subrange(0, k as int + 1).drop_last() =~= iv.subrange(0, k as int));
                assert(iv.subrange(0, k as int + 1).last() == iv[k as int]);
            }
            let x = items[k];
            let x_rank = self.entries[x].rank();
            let x_id = self.entries[x].id_key();
            let mut pos: usize = out.len();
            while pos > 0
                invariant
                    0 <= pos <= out@.len(),
                    x_rank as int == self.entries@[x as int].spec_rank(),
                    x_id as int == self.entries@[x as int].spec_id_key(),
                    pre == out@.map_values(|x0: usize| x0 as int),
                    forall|p: int|
                        0 <= p < out@.len() ==> #[trigger] out@[p] < self.entries@.len(),
                    forall|p: int|
                        pos <= p < out@.len() ==> !le_entry(
                            self.entries@,
                            #[trigger] out@[p] as int,
                            x as int,
                        ),
                ensures
                    0 <= pos <= out@.len(),
                    pre == out@.map_values(|x0: usize| x0 as int),
                    forall|p: int|
                        pos <= p < out@.len() ==> !le_entry(
                            self.entries@,
                            #[trigger] out@[p] as int,
                            x as int,
                        ),
                    pos > 0 ==> le_entry(self.entries@, out@[pos - 1] as int, x as int),
                decreases pos,
            {
                let prev = out[pos - 1];
                let prev_rank = self.entries[prev].rank();
                let prev_id = self.entries[prev].id_key();
                let le_prev = prev_rank < x_rank || (prev_rank == x_rank && prev_id <= x_id);
                if le_prev {
                    break ;
                }
                pos -= 1;
            }
            proof {
                assert(forall|p: int| 0 <= p < pre.len() ==> #[trigger] pre[p] == out@[p] as int);
                lemma_insert_at(self.entries@, pre, x as int, pos as int);
            }
            out.insert(pos, x);
            proof {
                assert(out@.map_values(|x0: usize| x0 as int) =~= pre.subrange(0, pos as int)
                    + seq![x as int] + pre.subrange(pos as int, pre.len() as int)) by {
                    assert(out@ =~= out@);
                }
                assert(out@.map_values(|x0: usize| x0 as int) =~= spec_insert_by_rank(
                    self.entries@,
                    pre,
                    x as int,
                ));
            }
            k += 1;
        }
        proof {
            assert(iv.subrange(0, iv.len() as int) =~= iv);
        }
        out
    }
}

/// Whether the list holds a string equal to the given one.
fn contains_string(list: &Vec<String>, needle: &str) -> (r: bool)
    ensures
        r == tag_views(list@).contains(needle@),
{
    let mut i: usize = 0;
    while i < list.len()
        invariant
            0 <= i <= list@.len(),
            forall|j: int| 0 <= j < i ==> tag_views(list@)[j] != needle@,
        decreases list@.len() - i,
    {
        if str_eq(list[i].as_str(), needle) {
            proof {
                assert(tag_views(list@)[i as int] == needle@);
            }
            return true;
        }
        i += 1;
    }
    proof {
        if tag_views(list@).contains(needle@) {
            let j = choose|j: int|
                0 <= j < tag_views(list@).len() && tag_views(list@)[j] == needle@;
            assert(false);
        }
    }
    false
}


proof fn lemma_postings_sound(entries: Seq<DictionaryEntry>, term: Seq<char>)
    ensures
        forall|m: int|
            0 <= m < spec_postings(entries, term).len() ==> {
                let i = #[trigger] spec_postings(entries, term)[m];
                0 <= i < entries.len() && term_count(entries[i].spec_terms(), term) > 0
            },
    decreases entries.len(),
{
    if entries.len() > 0 {
        lemma_postings_sound(entries.drop_last(), term);
        let whole = spec_postings(entries, term);
        let front = spec_postings(entries.drop_last(), term);
        let back = repeat_index(
            entries.len() - 1,
            term_count(entries.last().spec_terms(), term),
        );
        lemma_term_count_nonneg(entries.last().spec_terms(), term);
        assert forall|m: int| 0 <= m < whole.len() implies {
            let i = #[trigger] whole[m];
            0 <= i < entries.len() && term_count(entries[i].spec_terms(), term) > 0
        } by {
            if m < front.len() {
                assert(whole[m] == front[m]);
                assert(entries.drop_last()[front[m]] == entries[front[m]]);
            } else {
                assert(whole[m] == back[m - front.len()]);
                assert(back.len() > 0);
            }
        }
    }
}

/// The index is sound: every entry it lists under a key holds that key
/// among its searchable terms.
pub proof fn lemma_index_entries_hold_the_term(d: Dictionary, term: Seq<char>, m: int)
    requires
        d.wf(),
        0 <= m < d.model_at(term).len(),
    ensures
        ({
            let i = d.model_at(term)[m];
            0 <= i < d.entries@.len() && term_count(d.entries@[i].spec_terms(), term) > 0
        }),
{
    lemma_postings_sound(d.entries@, term);
}

/// Every searchable term of every entry leads back to the entry: what
/// the index lists under the term holds the entry's position.
pub proof fn lemma_searchable_terms_containment(d: Dictionary, i: int, t: int)
    requires
        d.wf(),
        0 <= i < d.entries@.len(),
        0 <= t < d.entries@[i].spec_terms().len(),
    ensures
        d.model_at(d.entries@[i].spec_terms()[t]).contains(i),
{
    let term = d.entries@[i].spec_terms()[t];
    lemma_term_count_positive(d.entries@[i].spec_terms(), t);
    lemma_postings_contains(d.entries@, term, i);
}

/// An ASCII whitespace character.
pub open spec fn is_ascii_space(c: char) -> bool {
    c == ' ' || c == '\t' || c == '\n' || c == '\u{C}' || c == '\r'
}

/// A character the query normalization trims: ASCII whitespace, and the
/// straight and curly double quotes when asked for.
pub open spec fn is_trim_char(c: char, with_quotes: bool) -> bool {
    is_ascii_space(c) || (with_quotes && (c == '"' || c == '“' || c == '”'))
}

pub open spec fn trim_front(s: Seq<char>, with_quotes: bool) -> Seq<char>
    decreases s.len(),
{
    if s.len() > 0 && is_trim_char(s[0], with_quotes) {
        trim_front(s.drop_first(), with_quotes)
    } else {
        s
    }
}

pub open spec fn trim_back(s: Seq<char>, with_quotes: bool) -> Seq<char>
    decreases s.len(),
{
    if s.len() > 0 && is_trim_char(s.last(), with_quotes) {
        trim_back(s.drop_last(), with_quotes)
    } else {
        s
    }
}

/// The string with trim characters removed from both ends.
pub open spec fn spec_trim(s: Seq<char>, with_quotes: bool) -> Seq<char> {
    trim_back(trim_front(s, with_quotes), with_quotes)
}

fn is_trim_char_exec(c: char, with_quotes: bool) -> (r: bool)
    ensures
        r == is_trim_char(c, with_quotes),
{
    c == ' ' || c == '\t' || c == '\n' || c == '\u{C}' || c == '\r' || (with_quotes && (c == '"'
        || c == '“' || c == '”'))
}

/// Removes trim characters from both ends.
fn trim_str(s: &str, with_quotes: bool) -> (r: String)
    ensures
        r@ == spec_trim(s@, with_quotes),
{
    let n = s.unicode_len();
    let mut start: usize = 0;
    proof {
        assert(s@.skip(0) =~= s@);
    }
    while start < n
        invariant
            0 <= start <= n,
            n == s@.len(),
            trim_front(s@, with_quotes) == trim_front(s@.skip(start as int), with_quotes),
        ensures
            0 <= start <= n,
            trim_front(s@, with_quotes) == trim_front(s@.skip(start as int), with_quotes),
            start < n ==> !is_trim_char(s@[start as int], with_quotes),
        decreases n - start,
    {
        let c = s.get_char(start);
        if !is_trim_char_exec(c, with_quotes) {
            break ;
        }
        proof {
            assert(s@.skip(start as int)[0] == s@[start as int]);
            assert(s@.skip(start as int).drop_first() =~= s@.skip(start as int + 1));
        }
        start += 1;
    }
    let ghost front = s@.skip(start as int);
    proof {
        if start < n {
            assert(front[0] == s@[start as int]);
            assert(trim_front(front, with_quotes) == front);
        } else {
            assert(front =~= Seq::<char>::empty());
        }
    }
    let mut end: usize = n;
    proof {
        assert(front.subrange(0, n - start) =~= front);
    }
    while end > start
        invariant
            start <= end <= n,
            n == s@.len(),
            front == s@.skip(start as int),
            trim_back(front, with_quotes) == trim_back(
                front.subrange(0, end - start),
                with_quotes,
            ),
        ensures
            start <= end <= n,
            trim_back(front, with_quotes) == trim_back(
                front.subrange(0, end - start),
                with_quotes,
            ),
            end > start ==> !is_trim_char(s@[end - 1], with_quotes),
        decreases end,
    {
        let c = s.get_char(end - 1);
        if !is_trim_char_exec(c, with_quotes) {
            break ;
        }
        proof {
            let j = end - start;
            assert(front.subrange(0, j as int).last() == s@[end - 1]);
            assert(front.subrange(0, j as int).drop_last() =~= front.subrange(0, j as int - 1));
        }
        end -= 1;
    }
    proof {
        let j = end - start;
        if end > start {
            assert(front.subrange(0, j as int).last() == s@[end - 1]);
            assert(trim_back(front.subrange(0, j as int), with_quotes) == front.subrange(
                0,
                j as int,
            ));
        } else {
            assert(front.subrange(0, 0) =~= Seq::<char>::empty());
        }
        assert(front.subrange(0, j as int) =~= s@.subrange(start as int, end as int));
    }
    s.substring_char(start, end).to_owned()
}

/// The normalized query: trimmed, with upper case ASCII lowered.
pub open spec fn spec_clean_query(q: Seq<char>) -> Seq<char> {
    spec_trim(q, true).map_values(|c: char| spec_lower_char(c))
}

/// Normalizes a raw query: trims whitespace and double quotes, lowers
/// the ASCII letters.
pub fn clean_query(query: &str) -> (r: String)
    ensures
        r@ == spec_clean_query(query@),
{
    let trimmed = trim_str(query, true);
    let t = trimmed.as_str();
    let n = t.unicode_len();
    let mut out = String::new();
    let mut i: usize = 0;
    while i < n
        invariant
            0 <= i <= n,
            n == t@.len(),
            out@ == t@.subrange(0, i as int).map_values(|c: char| spec_lower_char(c)),
        decreases n - i,
    {
        let c = t.get_char(i);
        push_char(&mut out, lower_char(c));
        proof {
            assert(out@ =~= t@.subrange(0, i as int + 1).map_values(
                |c0: char| spec_lower_char(c0),
            ));
        }
        i += 1;
    }
    proof {
        assert(t@.subrange(0, n as int) =~= t@);
    }
    out
}

/// The query text and the kind flags in it: each occurrence of a kind
/// token, scanned left to right, is taken out of the text and collected.
pub open spec fn spec_extract_flags(s: Seq<char>) -> (Seq<char>, Seq<Seq<char>>)
    decreases s.len(),
{
    if s.len() == 0 {
        (Seq::empty(), Seq::empty())
    } else if s.len() >= 6 && s.subrange(0, 6) == "#kanji"@ {
        let rest = spec_extract_flags(s.skip(6));
        (rest.0, seq!["#kanji"@] + rest.1)
    } else if s.len() >= 5 && s.subrange(0, 5) == "#word"@ {
        let rest = spec_extract_flags(s.skip(5));
        (rest.0, seq!["#word"@] + rest.1)
    } else if s.len() >= 5 && s.subrange(0, 5) == "#name"@ {
        let rest = spec_extract_flags(s.skip(5));
        (rest.0, seq!["#name"@] + rest.1)
    } else if s.len() >= 8 && s.subrange(0, 8) == "#radical"@ {
        let rest = spec_extract_flags(s.skip(8));
        (rest.0, seq!["#radical"@] + rest.1)
    } else {
        let rest = spec_extract_flags(s.drop_first());
        (seq![s[0]] + rest.0, rest.1)
    }
}

/// Splits a normalized query into its lookup text and its kind flags;
/// the text is trimmed once the flags are taken out.
pub fn extract_flags(s: &str) -> (r: (String, Vec<String>))
    ensures
        r.0@ == spec_trim(spec_extract_flags(s@).0, false),
        tag_views(r.1@) == spec_extract_flags(s@).1,
{
    let n = s.unicode_len();
    let mut text = String::new();
    let mut flags: Vec<String> = Vec::new();
    let mut i: usize = 0;
    proof {
        assert(s@.skip(0) =~= s@);
        assert(text@ + spec_extract_flags(s@).0 =~= spec_extract_flags(s@).0);
        assert(tag_views(flags@) + spec_extract_flags(s@).1 =~= spec_extract_flags(s@).1);
    }
    while i < n
        invariant
            0 <= i <= n,
            n == s@.len(),
            spec_extract_flags(s@).0 == text@ + spec_extract_flags(s@.skip(i as int)).0,
            spec_extract_flags(s@).1 == tag_views(flags@) + spec_extract_flags(
                s@.skip(i as int),
            ).1,
        decreases n - i,
    {
        let ghost rest = s@.skip(i as int);
        let ghost pre_text = text@;
        let ghost pre_flags = tag_views(flags@);
        proof {
            assert(rest[0] == s@[i as int]);
            assert(rest.skip(1) =~= s@.skip(i as int + 1));
            assert(rest.drop_first() =~= s@.skip(i as int + 1));
            if n - i >= 5 {
                assert(rest.subrange(0, 5) =~= s@.subrange(i as int, i as int + 5));
                assert(rest.skip(5) =~= s@.skip(i as int + 5));
            }
            if n - i >= 6 {
                assert(rest.subrange(0, 6) =~= s@.subrange(i as int, i as int + 6));
                assert(rest.skip(6) =~= s@.skip(i as int + 6));
            }
            if n - i >= 8 {
                assert(rest.subrange(0, 8) =~= s@.subrange(i as int, i as int + 8));
                assert(rest.skip(8) =~= s@.skip(i as int + 8));
            }
        }
        let kanji_hit = n - i >= 6 && str_eq(s.substring_char(i, i + 6), "#kanji");
        if kanji_hit {
            flags.push("#kanji".to_owned());
            proof {
                assert(tag_views(flags@) =~= pre_flags + seq!["#kanji"@]);
                assert((pre_flags + seq!["#kanji"@]) + spec_extract_flags(
                    s@.skip(i as int + 6),
                ).1 =~= pre_flags + (seq!["#kanji"@] + spec_extract_flags(
                    s@.skip(i as int + 6),
                ).1));
            }
            i += 6;
        } else {
            let word_hit = n - i >= 5 && str_eq(s.substring_char(i, i + 5), "#word");
            if word_hit {
                flags.push("#word".to_owned());
                proof {
                    assert(tag_views(flags@) =~= pre_flags + seq!["#word"@]);
                    assert((pre_flags + seq!["#word"@]) + spec_extract_flags(
                        s@.skip(i as int + 5),
                    ).1 =~= pre_flags + (seq!["#word"@] + spec_extract_flags(
                        s@.skip(i as int + 5),
                    ).1));
                }
                i += 5;
            } else {
                let name_hit = n - i >= 5 && str_eq(s.substring_char(i, i + 5), "#name");
                if name_hit {
                    flags.push("#name".to_owned());
                    proof {
                        assert(tag_views(flags@) =~= pre_flags + seq!["#name"@]);
                        assert((pre_flags + seq!["#name"@]) + spec_extract_flags(
                            s@.skip(i as int + 5),
                        ).1 =~= pre_flags + (seq!["#name"@] + spec_extract_flags(
                            s@.skip(i as int + 5),
                        ).1));
                    }
                    i += 5;
                } else {
                    let radical_hit = n - i >= 8 && str_eq(
                        s.substring_char(i, i + 8),
                        "#radical",
                    );
                    if radical_hit {
                        flags.push("#radical".to_owned());
                        proof {
                            assert(tag_views(flags@) =~= pre_flags + seq!["#radical"@]);
                            assert((pre_flags + seq!["#radical"@]) + spec_extract_flags(
                                s@.skip(i as int + 8),
                            ).1 =~= pre_flags + (seq!["#radical"@] + spec_extract_flags(
                                s@.skip(i as int + 8),
                            ).1));
                        }
                        i += 8;
                    } else {
                        let c = s.get_char(i);
                        push_char(&mut text, c);
                        proof {
                            assert(text@ =~= pre_text + seq![s@[i as int]]);
                            assert((pre_text + seq![s@[i as int]]) + spec_extract_flags(
                                s@.skip(i as int + 1),
                            ).0 =~= pre_text + (seq![s@[i as int]] + spec_extract_flags(
                                s@.skip(i as int + 1),
                            ).0));
                        }
                        i += 1;
                    }
                }
            }
        }
    }
    proof {
        assert(s@.skip(n as int) =~= Seq::<char>::empty());
        assert(text@ + Seq::<char>::empty() =~= text@);
        assert(tag_views(flags@) + Seq::<Seq<char>>::empty() =~= tag_views(flags@));
    }
    let trimmed = trim_str(text.as_str(), false);
    (trimmed, flags)
}

impl<'a> Dictionary<'a> {
    /// The postings the lookup key denotes: the converted hiragana and
    /// katakana pair when the key converts from romaji and the
    /// conversion is worth it, the key itself otherwise.
    pub open spec fn spec_chosen_postings(&self, q: Seq<char>) -> Seq<int> {
        let converted = crate::kana::spec_romaji_to_katakana(q);
        if crate::kana::spec_romaji_allowed(q) && converted is Some
            && crate::kana::spec_katakana_to_hiragana(converted.unwrap()) is Some
            && self.spec_worth_converting(
            q,
            crate::kana::spec_katakana_to_hiragana(converted.unwrap()).unwrap(),
            converted.unwrap(),
        ) {
            self.model_at(crate::kana::spec_katakana_to_hiragana(converted.unwrap()).unwrap())
                + self.model_at(converted.unwrap())
        } else {
            self.model_at(q)
        }
    }

    /// What a query with flags returns: the non-kanji entries of the
    /// chosen lookup, then the kanji entries found by looking up each
    /// character of the key, filtered by the kind flags and sorted by
    /// rank then id.
    pub open spec fn spec_query_with_flags(&self, q: Seq<char>, flags: Seq<Seq<char>>) -> Seq<
        int,
    > {
        let main = spec_filter_kind(self.entries@, self.spec_chosen_postings(q), false);
        let kanji = spec_filter_kind(self.entries@, spec_char_postings(*self, q), true);
        spec_sort_by_rank(
            self.entries@,
            spec_filter_flags(self.entries@, main + kanji, flags),
        )
    }

    /// Looks a normalized key up, with the romaji fallback, the
    /// per-character kanji lookup and the kind filter.
    pub fn query_with_flags(&self, query: &str, flags: &Vec<String>) -> (r: Vec<
        &'a DictionaryEntry,
    >)
        requires
            self.wf(),
        ensures
            r@.len() == self.spec_query_with_flags(query@, tag_views(flags@)).len(),
            forall|m: int|
                0 <= m < r@.len() ==> *#[trigger] r@[m] == self.entries@[self.spec_query_with_flags(
                    query@,
                    tag_views(flags@),
                )[m]],
    {
        let main_indices: Vec<usize> = match crate::kana::romaji_to_katakana(query) {
            Ok(katakana) => match crate::kana::katakana_to_hiragana(katakana.as_str()) {
                Ok(hiragana) => {
                    if self.worth_converting(query, hiragana.as_str(), katakana.as_str()) {
                        let mut hira_part = self.lookup_indices(hiragana.as_str());
                        let mut kata_part = self.lookup_indices(katakana.as_str());
                        let ghost hv = hira_part@.map_values(|x: usize| x as int);
                        let ghost kv = kata_part@.map_values(|x: usize| x as int);
                        hira_part.append(&mut kata_part);
                        proof {
                            assert(hira_part@.map_values(|x: usize| x as int) =~= hv + kv);
                        }
                        hira_part
                    } else {
                        self.lookup_indices(query)
                    }
                },
                Err(_) => self.lookup_indices(query),
            },
            Err(_) => self.lookup_indices(query),
        };
        let mut main = self.filter_kind_indices(&main_indices, false);
        let mut split_indices: Vec<usize> = Vec::new();
        let n = query.unicode_len();
        let mut i: usize = 0;
        proof {
            assert(query@.subrange(0, 0) =~= Seq::<char>::empty());
        }
        while i < n
            invariant
                0 <= i <= n,
                n == query@.len(),
                self.wf(),
                split_indices@.map_values(|x: usize| x as int) == spec_char_postings(
                    *self,
                    query@.subrange(0, i as int),
                ),
                forall|p: int|
                    0 <= p < split_indices@.len() ==> #[trigger] split_indices@[p]
                        < self.entries@.len(),
            decreases n - i,
        {
            let ghost pre = split_indices@.map_values(|x: usize| x as int);
            proof {
                assert(query@.subrange(0, i as int + 1).drop_last() =~= query@.subrange(
                    0,
                    i as int,
                ));
                assert(query@.subrange(0, i as int + 1).last() == query@[i as int]);
            }
            let c = query.get_char(i);
            let mut key = String::new();
            push_char(&mut key, c);
            proof {
                assert(key@ =~= seq![query@[i as int]]);
            }
            let mut part = self.lookup_indices(key.as_str());
            let ghost pv = part@.map_values(|x: usize| x as int);
            split_indices.append(&mut part);
            proof {
                assert(split_indices@.map_values(|x: usize| x as int) =~= pre + pv);
            }
            i += 1;
        }
        proof {
            assert(query@.subrange(0, n as int) =~= query@);
        }
        let mut kanji_part = self.filter_kind_indices(&split_indices, true);
        main.append(&mut kanji_part);
        let ghost mv = main@.map_values(|x: usize| x as int);
        proof {
            assert(mv =~= spec_filter_kind(
                self.entries@,
                self.spec_chosen_postings(query@),
                false,
            ) + spec_filter_kind(self.entries@, spec_char_postings(*self, query@), true));
        }
        let kept = self.filter_flags_indices(&main, flags);
        let sorted = self.sort_indices(kept);
        let mut out: Vec<&'a DictionaryEntry> = Vec::new();
        let mut m: usize = 0;
        while m < sorted.len()
            invariant
                0 <= m <= sorted@.len(),
                sorted@.map_values(|x: usize| x as int) == self.spec_query_with_flags(
                    query@,
                    tag_views(flags@),
                ),
                forall|p: int|
                    0 <= p < sorted@.len() ==> #[trigger] sorted@[p] < self.entries@.len(),
                out@.len() == m,
                forall|p: int|
                    0 <= p < m ==> *#[trigger] out@[p] == self.entries@[sorted@[p] as int],
            decreases sorted@.len() - m,
        {
            let idx = sorted[m];
            out.push(&self.entries[idx]);
            m += 1;
        }
        out
    }

    /// The entries listed under each of several keys, chained.
    pub fn get_all(&self, keys: &Vec<String>) -> (r: Vec<&'a DictionaryEntry>)
        requires
            self.wf(),
        ensures
            r@.len() == spec_lookup_all(*self, tag_views(keys@)).len(),
            forall|m: int|
                0 <= m < r@.len() ==> *#[trigger] r@[m] == self.entries@[spec_lookup_all(
                    *self,
                    tag_views(keys@),
                )[m]],
    {
        let indices = self.lookup_all_indices(keys);
        let mut out: Vec<&'a DictionaryEntry> = Vec::new();
        let mut m: usize = 0;
        while m < indices.len()
            invariant
                0 <= m <= indices@.len(),
                indices@.map_values(|x: usize| x as int) == spec_lookup_all(
                    *self,
                    tag_views(keys@),
                ),
                forall|p: int|
                    0 <= p < indices@.len() ==> #[trigger] indices@[p] < self.entries@.len(),
                out@.len() == m,
                forall|p: int|
                    0 <= p < m ==> *#[trigger] out@[p] == self.entries@[indices@[p] as int],
            decreases indices@.len() - m,
        {
            let idx = indices[m];
            out.push(&self.entries[idx]);
            m += 1;
        }
        out
    }

    /// What a raw query returns: the normalized text's lookup under the
    /// flags found in the query.
    pub open spec fn spec_query(&self, raw: Seq<char>) -> Seq<int> {
        let cleaned = spec_clean_query(raw);
        let parts = spec_extract_flags(cleaned);
        self.spec_query_with_flags(spec_trim(parts.0, false), parts.1)
    }

    /// Answers a raw query: normalizes it, extracts the kind flags, and
    /// looks the remaining text up.
    pub fn query(&self, raw_query: &str) -> (r: Vec<&'a DictionaryEntry>)
        requires
            self.wf(),
        ensures
            r@.len() == self.spec_query(raw_query@).len(),
            forall|m: int|
                0 <= m < r@.len() ==> *#[trigger] r@[m] == self.entries@[self.spec_query(
                    raw_query@,
                )[m]],
    {
        let cleaned = clean_query(raw_query);
        let (text, flags) = extract_flags(cleaned.as_str());
        self.query_with_flags(text.as_str(), &flags)
    }
}

/// For a fixed corpus a query denotes one result list: the query
/// function is deterministic.
pub proof fn lemma_query_deterministic(
    d: Dictionary,
    raw: Seq<char>,
    r1: Seq<int>,
    r2: Seq<int>,
)
    requires
        r1 == d.spec_query(raw),
        r2 == d.spec_query(raw),
    ensures
        r1 == r2,
{
}

} // verus!
