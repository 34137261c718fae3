use vstd::prelude::*;

use crate::adjective::spec_first_adjective_tag;
use crate::adjective::spec_generate_adjective_conjugations;
use crate::catalog::Innocent;
use crate::catalog::Jmdict;
use crate::catalog::Kanjidic;
use crate::catalog::Kanjium;
use crate::catalog::Krad;
use crate::catalog::Pitches;
use crate::catalog::Radk;
use crate::catalog::Tag;
use crate::conjugation::ConjugationModel;
use crate::conjugation::VerbConjugation;
use crate::conjugation::any_starts_with;
use crate::conjugation::conjugation_inputs_fit;
use crate::conjugation::conjugation_rules_fit;
use crate::conjugation::generate_all_verb_conjugations;
use crate::conjugation::spec_first_verb_tag;
use crate::conjugation::spec_generate_verb_conjugations;
use crate::conjugation::spec_kana_source;
use crate::conjugation::tag_views;
use crate::strutil::clone_strings;
use crate::strutil::dec_val;
use crate::strutil::all_dec_digits;
use crate::strutil::all_hex_digits;
use crate::strutil::hex_val;
use crate::strutil::parse_u32_dec;
use crate::strutil::parse_u32_hex;
use crate::strutil::space_tokens;
use crate::strutil::spec_space_tokens;
use crate::strutil::split_by;
use crate::strutil::split_seq;

verus! {

/// The names of a tag list, in list order.
pub open spec fn spec_tag_names(tags: Seq<Tag>) -> Seq<Seq<char>> {
    tags.map_values(|t: Tag| t.tag@)
}

fn tag_names(tags: &Vec<Tag>) -> (r: Vec<String>)
    ensures
        tag_views(r@) == spec_tag_names(tags@),
{
    let mut out: Vec<String> = Vec::new();
    let mut i: usize = 0;
    while i < tags.len()
        invariant
            0 <= i <= tags@.len(),
            tag_views(out@) == spec_tag_names(tags@.subrange(0, i as int)),
        decreases tags@.len() - i,
    {
        let ghost pre = out@;
        out.push(tags[i].tag.clone());
        proof {
            assert(pre.len() == i as int) by {
                assert(tag_views(pre).len() == spec_tag_names(tags@.subrange(0, i as int)).len());
            }
            assert(out@ == pre.push(tags@[i as int].tag));
            assert forall|j: int| 0 <= j < i + 1 implies tag_views(out@)[j] == spec_tag_names(
                tags@.subrange(0, i as int + 1),
            )[j] by {
                assert(tags@.subrange(0, i as int + 1)[j] == tags@[j]);
                if j < i {
                    assert(out@[j] == pre[j]);
                    assert(tag_views(pre)[j] == spec_tag_names(tags@.subrange(0, i as int))[j]);
                    assert(tags@.subrange(0, i as int)[j] == tags@[j]);
                }
            }
            assert(tag_views(out@) =~= spec_tag_names(tags@.subrange(0, i as int + 1)));
        }
        i += 1;
    }
    proof {
        assert(tags@.subrange(0, tags@.len() as int) =~= tags@);
    }
    out
}

/// A search key of an entry.
pub trait Query {
    /// The entry's searchable terms, as sequences of characters.
    spec fn spec_terms(&self) -> Seq<Seq<char>>;

    /// The entry's searchable terms.
    fn searchable_terms(&self) -> (r: Vec<String>)
        ensures
            r@.map_values(|s: String| s@) == self.spec_terms(),
    ;
}

/// A dictionary word with everything the index needs precomputed.
#[derive(Debug)]
pub struct Word {
    pub vocabulary: String,
    pub reading: String,
    pub meanings: Vec<String>,
    pub tags: Vec<Tag>,
    pub id: u32,
    pub frequency: Option<u32>,
    pub pitches: Option<Vec<Pitches>>,
    pub conjugations: Vec<VerbConjugation>,
}

/// What the conjugator attaches to a word: the verb forms when some tag
/// names a verb category, else the adjective forms, else nothing.
pub open spec fn spec_word_conjugations(j: Jmdict) -> Seq<ConjugationModel> {
    let tv = spec_tag_names(j.tags@);
    let verb = spec_generate_verb_conjugations(j.vocabulary@, j.reading@, tv);
    if verb.len() > 0 {
        verb
    } else {
        match spec_generate_adjective_conjugations(j.vocabulary@, j.reading@, tv) {
            Some(adjective) => adjective,
            None => Seq::empty(),
        }
    }
}

/// Whether the record's surface forms are long enough for the category
/// its tags select, so that conjugation cannot cut past the start.
pub open spec fn spec_word_conjugation_inputs_ok(j: Jmdict) -> bool {
    let tv = spec_tag_names(j.tags@);
    let kanji = j.vocabulary@;
    let kana = spec_kana_source(kanji, j.reading@);
    &&& ((any_starts_with(tv, 'v') && kanji.len() > 0 && spec_first_verb_tag(tv) is Some) ==> {
        let cat = spec_first_verb_tag(tv)->Some_0;
        &&& conjugation_rules_fit(kanji, cat, false)
        &&& conjugation_rules_fit(kana, cat, true)
    })
    &&& ((any_starts_with(tv, 'a') && kanji.len() > 0 && spec_first_adjective_tag(tv) is Some)
        ==> kanji.len() >= 2 && kana.len() >= 2)
}

/// Checks at run time that a record can be conjugated safely.
pub fn word_conjugation_inputs_fit(j: &Jmdict) -> (r: bool)
    ensures
        r == spec_word_conjugation_inputs_ok(*j),
{
    let names = tag_names(&j.tags);
    let kanji = j.vocabulary.as_str();
    let kana: &str = if j.reading.as_str().unicode_len() == 0 {
        j.vocabulary.as_str()
    } else {
        j.reading.as_str()
    };
    let verb_relevant = crate::conjugation::any_tag_starts_with(&names, 'v')
        && kanji.unicode_len() > 0;
    let verb_ok = match crate::conjugation::first_verb_tag(&names) {
        Some(cat) => !verb_relevant || conjugation_inputs_fit(kanji, kana, cat),
        None => true,
    };
    let adjective_relevant = crate::conjugation::any_tag_starts_with(&names, 'a')
        && kanji.unicode_len() > 0;
    let adjective_ok = match crate::adjective::first_adjective_tag(&names) {
        Some(_) => !adjective_relevant || (kanji.unicode_len() >= 2 && kana.unicode_len() >= 2),
        None => true,
    };
    verb_ok && adjective_ok
}

/// The flattened comma-separated pieces of the meanings.
pub open spec fn spec_split_meanings(ms: Seq<Seq<char>>) -> Seq<Seq<char>>
    decreases ms.len(),
{
    if ms.len() == 0 {
        Seq::empty()
    } else {
        split_seq(ms[0], ", "@) + spec_split_meanings(ms.drop_first())
    }
}

/// Splits every meaning on comma-space and chains the pieces.
fn split_meanings(meanings: &Vec<String>) -> (r: Vec<String>)
    ensures
        r@.map_values(|s: String| s@) == spec_split_meanings(
            meanings@.map_values(|s: String| s@),
        ),
{
    proof {
        reveal_strlit(", ");
    }
    let ghost mv = meanings@.map_values(|s: String| s@);
    let mut out: Vec<String> = Vec::new();
    let mut i: usize = 0;
    proof {
        assert(mv.skip(0) =~= mv);
        assert(out@.map_values(|s: String| s@) + spec_split_meanings(mv) =~= spec_split_meanings(
            mv,
        ));
    }
    while i < meanings.len()
        invariant
            0 <= i <= meanings@.len(),
            mv == meanings@.map_values(|s: String| s@),
            spec_split_meanings(mv) == out@.map_values(|s: String| s@) + spec_split_meanings(
                mv.skip(i as int),
            ),
        decreases meanings@.len() - i,
    {
        let ghost pre = out@.map_values(|s: String| s@);
        proof {
            reveal_strlit(", ");
            assert(mv.skip(i as int)[0] == mv[i as int]);
            assert(mv.skip(i as int).drop_first() =~= mv.skip(i as int + 1));
        }
        let mut pieces = split_by(meanings[i].as_str(), ", ");
        let ghost piece_views = pieces@.map_values(|s: String| s@);
        out.append(&mut pieces);
        proof {
            assert(out@.map_values(|s: String| s@) =~= pre + piece_views);
            assert((pre + piece_views) + spec_split_meanings(mv.skip(i as int + 1)) =~= pre + (
            piece_views + spec_split_meanings(mv.skip(i as int + 1))));
        }
        i += 1;
    }
    proof {
        assert(mv.skip(meanings@.len() as int) =~= Seq::<Seq<char>>::empty());
        assert(out@.map_values(|s: String| s@) + Seq::<Seq<char>>::empty() =~= out@.map_values(
            |s: String| s@,
        ));
    }
    out
}

/// A word's searchable terms: the comma-separated pieces of each
/// meaning, the vocabulary, the reading, each tag name, then every
/// conjugated kana and kanji surface.
pub open spec fn spec_word_terms(w: Word) -> Seq<Seq<char>> {
    spec_split_meanings(w.meanings@.map_values(|s: String| s@)) + seq![w.vocabulary@, w.reading@]
        + spec_tag_names(w.tags@) + w.conjugations@.map_values(|c: VerbConjugation| c.kana_form@)
        + w.conjugations@.map_values(|c: VerbConjugation| c.kanji_form@)
}

impl Query for Word {
    open spec fn spec_terms(&self) -> Seq<Seq<char>> {
        spec_word_terms(*self)
    }

    fn searchable_terms(&self) -> (r: Vec<String>)
        ensures
            r@.map_values(|s: String| s@) == self.spec_terms(),
    {
        let mut out = split_meanings(&self.meanings);
        let ghost part1 = out@.map_values(|s: String| s@);
        out.push(self.vocabulary.clone());
        out.push(self.reading.clone());
        let ghost part2 = out@.map_values(|s: String| s@);
        proof {
            assert(part2 =~= part1 + seq![self.vocabulary@, self.reading@]);
        }
        let mut names = tag_names(&self.tags);
        out.append(&mut names);
        let ghost part3 = out@.map_values(|s: String| s@);
        proof {
            assert(part3 =~= part2 + spec_tag_names(self.tags@));
        }
        let mut i: usize = 0;
        while i < self.conjugations.len()
            invariant
                0 <= i <= self.conjugations@.len(),
                out@.map_values(|s: String| s@) == part3 + self.conjugations@.subrange(
                    0,
                    i as int,
                ).map_values(|c: VerbConjugation| c.kana_form@),
            decreases self.conjugations@.len() - i,
        {
            let ghost pre = out@;
            out.push(self.conjugations[i].kana_form.clone());
            proof {
                let target = part3 + self.conjugations@.subrange(0, i as int + 1).map_values(
                    |c: VerbConjugation| c.kana_form@,
                );
                assert(pre.len() == part3.len() + i as int) by {
                    assert(pre.map_values(|s: String| s@).len() == part3.len() + i as int);
                }
                assert(out@ == pre.push(self.conjugations@[i as int].kana_form));
                assert forall|j: int|
                    0 <= j < out@.len() implies out@.map_values(|s: String| s@)[j] == target[j] by {
                    if j >= part3.len() {
                        assert(self.conjugations@.subrange(0, i as int + 1)[j - part3.len()]
                            == self.conjugations@[j - part3.len()]);
                    }
                    if j < pre.len() {
                        assert(out@[j] == pre[j]);
                        assert(pre.map_values(|s: String| s@)[j] == (part3
                            + self.conjugations@.subrange(0, i as int).map_values(
                            |c: VerbConjugation| c.kana_form@,
                        ))[j]);
                        if j >= part3.len() {
                            assert(self.conjugations@.subrange(0, i as int)[j - part3.len()]
                                == self.conjugations@[j - part3.len()]);
                        }
                    }
                }
                assert(out@.map_values(|s: String| s@) =~= target);
            }
            i += 1;
        }
        let ghost part4 = out@.map_values(|s: String| s@);
        proof {
            assert(self.conjugations@.subrange(0, self.conjugations@.len() as int)
                =~= self.conjugations@);
        }
        let mut i: usize = 0;
        while i < self.conjugations.len()
            invariant
                0 <= i <= self.conjugations@.len(),
                out@.map_values(|s: String| s@) == part4 + self.conjugations@.subrange(
                    0,
                    i as int,
                ).map_values(|c: VerbConjugation| c.kanji_form@),
            decreases self.conjugations@.len() - i,
        {
            let ghost pre = out@;
            out.push(self.conjugations[i].kanji_form.clone());
            proof {
                let target = part4 + self.conjugations@.subrange(0, i as int + 1).map_values(
                    |c: VerbConjugation| c.kanji_form@,
                );
                assert(pre.len() == part4.len() + i as int) by {
                    assert(pre.map_values(|s: String| s@).len() == part4.len() + i as int);
                }
                assert(out@ == pre.push(self.conjugations@[i as int].kanji_form));
                assert forall|j: int|
                    0 <= j < out@.len() implies out@.map_values(|s: String| s@)[j] == target[j] by {
                    if j >= part4.len() {
                        assert(self.conjugations@.subrange(0, i as int + 1)[j - part4.len()]
                            == self.conjugations@[j - part4.len()]);
                    }
                    if j < pre.len() {
                        assert(out@[j] == pre[j]);
                        assert(pre.map_values(|s: String| s@)[j] == (part4
                            + self.conjugations@.subrange(0, i as int).map_values(
                            |c: VerbConjugation| c.kanji_form@,
                        ))[j]);
                        if j >= part4.len() {
                            assert(self.conjugations@.subrange(0, i as int)[j - part4.len()]
                                == self.conjugations@[j - part4.len()]);
                        }
                    }
                }
                assert(out@.map_values(|s: String| s@) =~= target);
            }
            i += 1;
        }
        proof {
            assert(self.conjugations@.subrange(0, self.conjugations@.len() as int)
                =~= self.conjugations@);
            assert(out@.map_values(|s: String| s@) =~= spec_word_terms(*self));
        }
        out
    }
}

impl Word {
    /// Builds a word from its source records; the conjugations are
    /// attached here, once, at build time.
    pub fn from(jmdict: Jmdict, innocent: Option<&Innocent>, kanjium: Option<&Kanjium>) -> (r:
        Word)
        requires
            spec_word_conjugation_inputs_ok(jmdict),
        ensures
            r.vocabulary == jmdict.vocabulary,
            r.reading == jmdict.reading,
            r.tags == jmdict.tags,
            r.meanings == jmdict.meanings,
            r.id == jmdict.id,
            r.frequency == match innocent {
                Some(i) => Some(i.frequency),
                None => None::<u32>,
            },
            r.pitches is Some <==> kanjium is Some,
            r.pitches matches Some(ps) ==> (kanjium matches Some(k) && ps@.len()
                == k.pitch.pitches@.len() && forall|j: int|
                0 <= j < ps@.len() ==> (#[trigger] ps@[j]).position == k.pitch.pitches@[j].position
                    && ps@[j].tags@ == k.pitch.pitches@[j].tags@),
            r.conjugations@.map_values(|c: VerbConjugation| c@) == spec_word_conjugations(jmdict),
    {
        let names = tag_names(&jmdict.tags);
        let kana: &str = if jmdict.reading.as_str().unicode_len() == 0 {
            jmdict.vocabulary.as_str()
        } else {
            jmdict.reading.as_str()
        };
        let verb_forms = generate_all_verb_conjugations(
            jmdict.vocabulary.as_str(),
            jmdict.reading.as_str(),
            &names,
        );
        let conjugations: Vec<VerbConjugation> = if verb_forms.len() > 0 {
            verb_forms
        } else {
            match crate::adjective::generate_all_adjective_conjugations(
                jmdict.vocabulary.as_str(),
                jmdict.reading.as_str(),
                &names,
            ) {
                Some(adjective_forms) => adjective_forms,
                None => {
                    let empty_forms: Vec<VerbConjugation> = Vec::new();
                    proof {
                        assert(empty_forms@.map_values(|c: VerbConjugation| c@) =~= Seq::<
                            ConjugationModel,
                        >::empty());
                    }
                    empty_forms
                },
            }
        };
        let frequency = match innocent {
            Some(i) => Some(i.frequency),
            None => None,
        };
        let pitches = match kanjium {
            Some(k) => {
                let mut copies: Vec<Pitches> = Vec::new();
                let mut i: usize = 0;
                while i < k.pitch.pitches.len()
                    invariant
                        0 <= i <= k.pitch.pitches@.len(),
                        copies@.len() == i,
                        forall|j: int|
                            0 <= j < i ==> (#[trigger] copies@[j]).position
                                == k.pitch.pitches@[j].position && copies@[j].tags@
                                == k.pitch.pitches@[j].tags@,
                    decreases k.pitch.pitches@.len() - i,
                {
                    copies.push(
                        Pitches {
                            position: k.pitch.pitches[i].position,
                            tags: clone_tag_list(&k.pitch.pitches[i].tags),
                        },
                    );
                    i += 1;
                }
                Some(copies)
            },
            None => None,
        };
        Word {
            vocabulary: jmdict.vocabulary,
            reading: jmdict.reading,
            meanings: jmdict.meanings,
            tags: jmdict.tags,
            id: jmdict.id,
            frequency,
            pitches,
            conjugations,
        }
    }

    pub fn key(&self) -> (r: u32)
        ensures
            r == self.id,
    {
        self.id
    }
}

/// A copy of a tag list, element for element.
fn clone_tag_list(tags: &Vec<Tag>) -> (r: Vec<Tag>)
    ensures
        r@ == tags@,
{
    let mut out: Vec<Tag> = Vec::new();
    let mut i: usize = 0;
    while i < tags.len()
        invariant
            0 <= i <= tags@.len(),
            out@ == tags@.subrange(0, i as int),
        decreases tags@.len() - i,
    {
        out.push(tags[i].duplicate());
        proof {
            assert(out@ =~= tags@.subrange(0, i as int + 1));
        }
        i += 1;
    }
    proof {
        assert(tags@.subrange(0, tags@.len() as int) =~= tags@);
    }
    out
}

/// A proper name entry.
#[derive(Debug)]
pub struct Name {
    pub name: String,
    pub reading: String,
    pub tags: Vec<Tag>,
    pub translations: Vec<String>,
    pub id: u32,
}

/// A name's searchable terms: each translation, the name, the reading.
pub open spec fn spec_name_terms(n: Name) -> Seq<Seq<char>> {
    n.translations@.map_values(|s: String| s@) + seq![n.name@, n.reading@]
}

impl Query for Name {
    open spec fn spec_terms(&self) -> Seq<Seq<char>> {
        spec_name_terms(*self)
    }

    fn searchable_terms(&self) -> (r: Vec<String>)
        ensures
            r@.map_values(|s: String| s@) == self.spec_terms(),
    {
        let mut out = clone_strings(&self.translations);
        out.push(self.name.clone());
        out.push(self.reading.clone());
        proof {
            assert(out@.map_values(|s: String| s@) =~= spec_name_terms(*self));
        }
        out
    }
}

impl Name {
    pub fn from(jmnedict: Jmdict) -> (r: Name)
        ensures
            r.name == jmnedict.vocabulary,
            r.reading == jmnedict.reading,
            r.tags == jmnedict.tags,
            r.translations == jmnedict.meanings,
            r.id == jmnedict.id,
    {
        Name {
            name: jmnedict.vocabulary,
            reading: jmnedict.reading,
            tags: jmnedict.tags,
            translations: jmnedict.meanings,
            id: jmnedict.id,
        }
    }

    pub fn key(&self) -> (r: u32)
        ensures
            r == self.id,
    {
        self.id
    }
}

/// The value of the first attribute carrying the given key.
pub open spec fn spec_find_attr(attrs: Seq<(String, String)>, key: Seq<char>) -> Option<String>
    decreases attrs.len(),
{
    if attrs.len() == 0 {
        None
    } else if attrs[0].0@ == key {
        Some(attrs[0].1)
    } else {
        spec_find_attr(attrs.drop_first(), key)
    }
}

fn find_attr(attrs: &Vec<(String, String)>, key: &str) -> (r: Option<String>)
    ensures
        match r {
            Some(v) => spec_find_attr(attrs@, key@) matches Some(w) && v@ == w@,
            None => spec_find_attr(attrs@, key@) is None,
        },
{
    let mut i: usize = 0;
    proof {
        assert(attrs@.skip(0) =~= attrs@);
    }
    while i < attrs.len()
        invariant
            0 <= i <= attrs@.len(),
            spec_find_attr(attrs@, key@) == spec_find_attr(attrs@.skip(i as int), key@),
        decreases attrs@.len() - i,
    {
        proof {
            assert(attrs@.skip(i as int)[0] == attrs@[i as int]);
            assert(attrs@.skip(i as int).drop_first() =~= attrs@.skip(i as int + 1));
        }
        if crate::strutil::str_eq(attrs[i].0.as_str(), key) {
            return Some(attrs[i].1.clone());
        }
        i += 1;
    }
    None
}

/// The attribute's decimal value when it is present, all digits and at
/// most 255.
pub open spec fn spec_attr_u8(attrs: Seq<(String, String)>, key: Seq<char>) -> Option<u8> {
    match spec_find_attr(attrs, key) {
        Some(v) => if v@.len() > 0 && all_dec_digits(v@) && dec_val(v@) <= 255 {
            Some(dec_val(v@) as u8)
        } else {
            None
        },
        None => None,
    }
}

fn parse_attr_u8(attrs: &Vec<(String, String)>, key: &str) -> (r: Option<u8>)
    ensures
        r == spec_attr_u8(attrs@, key@),
{
    match find_attr(attrs, key) {
        Some(v) => match parse_u32_dec(v.as_str()) {
            Some(value) => if value <= 255 {
                Some(value as u8)
            } else {
                None
            },
            None => {
                proof {
                    let w = spec_find_attr(attrs@, key@)->Some_0;
                    if w@.len() > 0 && all_dec_digits(w@) && dec_val(w@) <= 255 {
                        assert(dec_val(v@) <= u32::MAX);
                    }
                }
                None
            },
        },
        None => None,
    }
}

/// A kanji entry.
#[derive(Debug)]
pub struct Kanji {
    pub kanji: String,
    pub on_yomi: Vec<String>,
    pub kun_yomi: Vec<String>,
    pub meanings: Vec<String>,
    pub strokes: u8,
    pub id: u32,
    pub frequency: Option<u32>,
    pub jlpt: Option<u8>,
    pub grade: Option<u8>,
    pub radicals: Option<Vec<String>>,
    pub tags: Vec<Tag>,
    pub attributes: Vec<(String, String)>,
}

/// A kanji's searchable terms: each meaning, the character, each
/// kun-yomi token, each on-yomi token.
pub open spec fn spec_kanji_terms(k: Kanji) -> Seq<Seq<char>> {
    k.meanings@.map_values(|s: String| s@) + seq![k.kanji@] + k.kun_yomi@.map_values(
        |s: String| s@,
    ) + k.on_yomi@.map_values(|s: String| s@)
}

impl Query for Kanji {
    open spec fn spec_terms(&self) -> Seq<Seq<char>> {
        spec_kanji_terms(*self)
    }

    fn searchable_terms(&self) -> (r: Vec<String>)
        ensures
            r@.map_values(|s: String| s@) == self.spec_terms(),
    {
        let mut out = clone_strings(&self.meanings);
        out.push(self.kanji.clone());
        let mut kun = clone_strings(&self.kun_yomi);
        out.append(&mut kun);
        let mut on = clone_strings(&self.on_yomi);
        out.append(&mut on);
        proof {
            assert(out@.map_values(|s: String| s@) =~= spec_kanji_terms(*self));
        }
        out
    }
}

/// The attributes that stay with the kanji once the four dedicated
/// fields are taken out.
pub open spec fn spec_retained_attrs(attrs: Seq<(String, String)>) -> Seq<(String, String)>
    decreases attrs.len(),
{
    if attrs.len() == 0 {
        Seq::empty()
    } else if attrs[0].0@ == "strokes"@ || attrs[0].0@ == "ucs"@ || attrs[0].0@ == "jlpt"@
        || attrs[0].0@ == "grade"@ {
        spec_retained_attrs(attrs.drop_first())
    } else {
        seq![attrs[0]] + spec_retained_attrs(attrs.drop_first())
    }
}

impl Kanji {
    /// Builds a kanji entry from its source records. The record must
    /// carry a strokes count of at most 255 and a hexadecimal code
    /// point, as the kanji bank promises.
    pub fn from(kanjidic: Kanjidic, innocent: Option<&Innocent>, krad: Option<&Krad>) -> (r:
        Kanji)
        requires
            spec_find_attr(kanjidic.attributes@, "strokes"@) matches Some(v) && v@.len() > 0
                && all_dec_digits(v@) && dec_val(v@) <= 255,
            spec_find_attr(kanjidic.attributes@, "ucs"@) matches Some(v) && v@.len() > 0
                && all_hex_digits(v@) && hex_val(v@) <= u32::MAX,
        ensures
            r.kanji == kanjidic.kanji,
            r.tags == kanjidic.tags,
            r.meanings == kanjidic.meanings,
            r.kun_yomi@.map_values(|s: String| s@) == spec_space_tokens(kanjidic.kun_yomi@),
            r.on_yomi@.map_values(|s: String| s@) == spec_space_tokens(kanjidic.on_yomi@),
            r.strokes == dec_val(spec_find_attr(kanjidic.attributes@, "strokes"@)->Some_0@),
            r.id == hex_val(spec_find_attr(kanjidic.attributes@, "ucs"@)->Some_0@),
            r.jlpt == spec_attr_u8(kanjidic.attributes@, "jlpt"@),
            r.grade == spec_attr_u8(kanjidic.attributes@, "grade"@),
            r.frequency == match innocent {
                Some(i) => Some(i.frequency),
                None => None::<u32>,
            },
            r.radicals matches Some(rv) ==> krad matches Some(k) && rv@ == k.radicals@,
            r.radicals is Some <==> krad is Some,
            r.attributes@ == spec_retained_attrs(kanjidic.attributes@),
    {
        proof {
            reveal_strlit("strokes");
            reveal_strlit("ucs");
            reveal_strlit("jlpt");
            reveal_strlit("grade");
        }
        let strokes_text = match find_attr(&kanjidic.attributes, "strokes") {
            Some(v) => v,
            None => unreached(),
        };
        let strokes = match parse_u32_dec(strokes_text.as_str()) {
            Some(v) => v as u8,
            None => unreached(),
        };
        let ucs_text = match find_attr(&kanjidic.attributes, "ucs") {
            Some(v) => v,
            None => unreached(),
        };
        let id = match parse_u32_hex(ucs_text.as_str()) {
            Some(v) => v,
            None => unreached(),
        };
        let jlpt = parse_attr_u8(&kanjidic.attributes, "jlpt");
        let grade = parse_attr_u8(&kanjidic.attributes, "grade");
        let frequency = match innocent {
            Some(i) => Some(i.frequency),
            None => None,
        };
        let radicals = match krad {
            Some(k) => Some(clone_strings(&k.radicals)),
            None => None,
        };
        let kun_yomi = space_tokens(kanjidic.kun_yomi.as_str());
        let on_yomi = space_tokens(kanjidic.on_yomi.as_str());
        let mut attributes: Vec<(String, String)> = Vec::new();
        let mut source = kanjidic.attributes;
        let ghost all_attrs = source@;
        let n = source.len();
        let mut i: usize = 0;
        proof {
            assert(all_attrs.skip(0) =~= all_attrs);
            assert(attributes@ + spec_retained_attrs(all_attrs) =~= spec_retained_attrs(
                all_attrs,
            ));
        }
        while i < n
            invariant
                0 <= i <= n,
                n == all_attrs.len(),
                source@ == all_attrs.skip(i as int),
                spec_retained_attrs(all_attrs) == attributes@ + spec_retained_attrs(
                    all_attrs.skip(i as int),
                ),
            decreases n - i,
        {
            let ghost pre = attributes@;
            proof {
                assert(all_attrs.skip(i as int)[0] == all_attrs[i as int]);
                assert(all_attrs.skip(i as int).drop_first() =~= all_attrs.skip(i as int + 1));
            }
            let pair = source.remove(0);
            let keep = !(crate::strutil::str_eq(pair.0.as_str(), "strokes")
                || crate::strutil::str_eq(pair.0.as_str(), "ucs") || crate::strutil::str_eq(
                pair.0.as_str(),
                "jlpt",
            ) || crate::strutil::str_eq(pair.0.as_str(), "grade"));
            if keep {
                attributes.push(pair);
                proof {
                    assert(attributes@ =~= pre + seq![all_attrs[i as int]]);
                    assert((pre + seq![all_attrs[i as int]]) + spec_retained_attrs(
                        all_attrs.skip(i as int + 1),
                    ) =~= pre + (seq![all_attrs[i as int]] + spec_retained_attrs(
                        all_attrs.skip(i as int + 1),
                    )));
                }
            }
            i += 1;
        }
        proof {
            assert(all_attrs.skip(n as int) =~= Seq::<(String, String)>::empty());
            assert(attributes@ + Seq::<(String, String)>::empty() =~= attributes@);
        }
        Kanji {
            kanji: kanjidic.kanji,
            on_yomi,
            kun_yomi,
            meanings: kanjidic.meanings,
            strokes,
            id,
            frequency,
            jlpt,
            grade,
            radicals,
            tags: kanjidic.tags,
            attributes,
        }
    }

    pub fn key(&self) -> (r: u32)
        ensures
            r == self.id,
    {
        self.id
    }
}

/// A radical entry.
#[derive(Debug)]
pub struct Radical {
    pub radical: String,
    pub strokes: u8,
    pub kanji: String,
}

/// A radical's searchable terms: only the glyph itself.
pub open spec fn spec_radical_terms(r: Radical) -> Seq<Seq<char>> {
    seq![r.radical@]
}

impl Query for Radical {
    open spec fn spec_terms(&self) -> Seq<Seq<char>> {
        spec_radical_terms(*self)
    }

    fn searchable_terms(&self) -> (r: Vec<String>)
        ensures
            r@.map_values(|s: String| s@) == self.spec_terms(),
    {
        let mut out: Vec<String> = Vec::new();
        out.push(self.radical.clone());
        proof {
            assert(out@.map_values(|s: String| s@) =~= spec_radical_terms(*self));
        }
        out
    }
}

impl Radical {
    pub fn from(radk: Radk) -> (r: Radical)
        ensures
            r.radical == radk.radical,
            r.strokes == radk.strokes,
            r.kanji == radk.kanji,
    {
        Radical { radical: radk.radical, strokes: radk.strokes, kanji: radk.kanji }
    }

    pub fn key(&self) -> (r: String)
        ensures
            r == self.radical,
    {
        self.radical.clone()
    }
}

/// One entry of the combined dictionary.
#[derive(Debug)]
pub enum DictionaryEntry {
    Word(Word),
    Name(Name),
    Kanji(Kanji),
    Radical(Radical),
}

impl Query for DictionaryEntry {
    open spec fn spec_terms(&self) -> Seq<Seq<char>> {
        match self {
            DictionaryEntry::Word(entry) => spec_word_terms(*entry),
            DictionaryEntry::Name(entry) => spec_name_terms(*entry),
            DictionaryEntry::Kanji(entry) => spec_kanji_terms(*entry),
            DictionaryEntry::Radical(entry) => spec_radical_terms(*entry),
        }
    }

    fn searchable_terms(&self) -> (r: Vec<String>)
        ensures
            r@.map_values(|s: String| s@) == self.spec_terms(),
    {
        match self {
            DictionaryEntry::Word(entry) => entry.searchable_terms(),
            DictionaryEntry::Name(entry) => entry.searchable_terms(),
            DictionaryEntry::Kanji(entry) => entry.searchable_terms(),
            DictionaryEntry::Radical(entry) => entry.searchable_terms(),
        }
    }
}

impl DictionaryEntry {
    /// The kind of the entry, as the kind flags name it.
    pub open spec fn spec_name(&self) -> Seq<char> {
        match self {
            DictionaryEntry::Word(_) => "Word"@,
            DictionaryEntry::Name(_) => "Name"@,
            DictionaryEntry::Kanji(_) => "Kanji"@,
            DictionaryEntry::Radical(_) => "Radical"@,
        }
    }

    pub fn name(&self) -> (r: &'static str)
        ensures
            r@ == self.spec_name(),
    {
        match self {
            DictionaryEntry::Word(_) => "Word",
            DictionaryEntry::Name(_) => "Name",
            DictionaryEntry::Kanji(_) => "Kanji",
            DictionaryEntry::Radical(_) => "Radical",
        }
    }

    /// The primary surface form the entry is listed under.
    pub open spec fn spec_primary_word(&self) -> Seq<char> {
        match self {
            DictionaryEntry::Word(w) => w.vocabulary@,
            DictionaryEntry::Name(n) => n.name@,
            DictionaryEntry::Kanji(k) => k.kanji@,
            DictionaryEntry::Radical(r) => r.radical@,
        }
    }

    pub fn primary_word(&self) -> (r: &String)
        ensures
            r@ == self.spec_primary_word(),
    {
        match self {
            DictionaryEntry::Word(w) => &w.vocabulary,
            DictionaryEntry::Name(n) => &n.name,
            DictionaryEntry::Kanji(k) => &k.kanji,
            DictionaryEntry::Radical(r) => &r.radical,
        }
    }

    /// The numeric id of the entry; radicals have none.
    pub open spec fn spec_id(&self) -> Option<u32> {
        match self {
            DictionaryEntry::Word(w) => Some(w.id),
            DictionaryEntry::Name(n) => Some(n.id),
            DictionaryEntry::Kanji(k) => Some(k.id),
            DictionaryEntry::Radical(_) => None,
        }
    }

    pub fn id(&self) -> (r: Option<u32>)
        ensures
            r == self.spec_id(),
    {
        match self {
            DictionaryEntry::Word(w) => Some(w.id),
            DictionaryEntry::Name(n) => Some(n.id),
            DictionaryEntry::Kanji(k) => Some(k.id),
            DictionaryEntry::Radical(_) => None,
        }
    }

    /// The corpus frequency of the entry, when one is known.
    pub open spec fn spec_frequency(&self) -> Option<u32> {
        match self {
            DictionaryEntry::Word(w) => w.frequency,
            DictionaryEntry::Name(_) => None,
            DictionaryEntry::Kanji(k) => k.frequency,
            DictionaryEntry::Radical(_) => None,
        }
    }

    pub fn frequency(&self) -> (r: Option<u32>)
        ensures
            r == self.spec_frequency(),
    {
        match self {
            DictionaryEntry::Word(w) => w.frequency,
            DictionaryEntry::Name(_) => None,
            DictionaryEntry::Kanji(k) => k.frequency,
            DictionaryEntry::Radical(_) => None,
        }
    }

    /// The ordering key of result lists: the frequency where one is
    /// known, the stroke count for radicals, and the largest value
    /// otherwise, so that entries without a frequency sort last.
    pub open spec fn spec_rank(&self) -> int {
        match self {
            DictionaryEntry::Radical(r) => r.strokes as int,
            _ => match self.spec_frequency() {
                Some(f) => f as int,
                None => u32::MAX as int,
            },
        }
    }

    pub fn rank(&self) -> (r: u32)
        ensures
            r as int == self.spec_rank(),
    {
        match self {
            DictionaryEntry::Radical(rad) => rad.strokes as u32,
            _ => match self.frequency() {
                Some(f) => f,
                None => u32::MAX,
            },
        }
    }

    /// The flag token that names the entry's kind.
    pub open spec fn spec_kind_flag(&self) -> Seq<char> {
        match self {
            DictionaryEntry::Word(_) => "#word"@,
            DictionaryEntry::Name(_) => "#name"@,
            DictionaryEntry::Kanji(_) => "#kanji"@,
            DictionaryEntry::Radical(_) => "#radical"@,
        }
    }

    pub fn kind_flag(&self) -> (r: &'static str)
        ensures
            r@ == self.spec_kind_flag(),
    {
        match self {
            DictionaryEntry::Word(_) => "#word",
            DictionaryEntry::Name(_) => "#name",
            DictionaryEntry::Kanji(_) => "#kanji",
            DictionaryEntry::Radical(_) => "#radical",
        }
    }

    /// The tie break of result lists: the id, entries without one last.
    pub open spec fn spec_id_key(&self) -> int {
        match self.spec_id() {
            Some(i) => i as int,
            None => u32::MAX as int,
        }
    }

    pub fn id_key(&self) -> (r: u32)
        ensures
            r as int == self.spec_id_key(),
    {
        match self.id() {
            Some(i) => i,
            None => u32::MAX,
        }
    }
}

} // verus!
