use vstd::prelude::*;

use crate::strutil::split_by;
use crate::strutil::split_seq;
use crate::strutil::str_eq;

verus! {

/// A grammatical tag as the tag banks carry it.
#[derive(Debug)]
pub struct Tag {
    pub tag: String,
    pub category: String,
    pub description: String,
}

/// The raw shape of a tag bank record.
#[derive(Debug)]
pub struct ParseTag {
    pub tag: String,
    pub category: String,
    pub _integer1: i32,
    pub description: String,
    pub _integer2: i32,
}

impl Tag {
    pub fn from_parsed(parsed: ParseTag, _tags: Option<&Vec<Tag>>) -> (r: Tag)
        ensures
            r.tag == parsed.tag,
            r.category == parsed.category,
            r.description == parsed.description,
    {
        Tag { tag: parsed.tag, category: parsed.category, description: parsed.description }
    }

    pub fn key(&self) -> (r: String)
        ensures
            r == self.tag,
    {
        self.tag.clone()
    }

    /// A field-for-field copy.
    pub fn duplicate(&self) -> (r: Tag)
        ensures
            r == *self,
    {
        Tag {
            tag: self.tag.clone(),
            category: self.category.clone(),
            description: self.description.clone(),
        }
    }
}

/// The first tag of the bank carrying the given name.
pub open spec fn spec_find_tag(bank: Seq<Tag>, name: Seq<char>) -> Option<Tag>
    decreases bank.len(),
{
    if bank.len() == 0 {
        None
    } else if bank[0].tag@ == name {
        Some(bank[0])
    } else {
        spec_find_tag(bank.drop_first(), name)
    }
}

pub fn find_tag(bank: &Vec<Tag>, name: &str) -> (r: Option<Tag>)
    ensures
        r == spec_find_tag(bank@, name@),
{
    let mut i: usize = 0;
    proof {
        assert(bank@.skip(0) =~= bank@);
    }
    while i < bank.len()
        invariant
            0 <= i <= bank@.len(),
            spec_find_tag(bank@, name@) == spec_find_tag(bank@.skip(i as int), name@),
        decreases bank@.len() - i,
    {
        proof {
            assert(bank@.skip(i as int)[0] == bank@[i as int]);
            assert(bank@.skip(i as int).drop_first() =~= bank@.skip(i as int + 1));
        }
        if str_eq(bank[i].tag.as_str(), name) {
            return Some(bank[i].duplicate());
        }
        i += 1;
    }
    None
}

/// The tags of the bank named by the given strings, in the strings'
/// order; names the bank does not know are dropped.
pub open spec fn spec_lookup_tags(names: Seq<Seq<char>>, bank: Seq<Tag>) -> Seq<Tag>
    decreases names.len(),
{
    if names.len() == 0 {
        Seq::empty()
    } else {
        match spec_find_tag(bank, names[0]) {
            Some(t) => seq![t] + spec_lookup_tags(names.drop_first(), bank),
            None => spec_lookup_tags(names.drop_first(), bank),
        }
    }
}

/// Resolves a space-separated list of tag names against a bank.
pub fn lookup_tags(names: &str, bank: &Vec<Tag>) -> (r: Vec<Tag>)
    ensures
        r@ == spec_lookup_tags(split_seq(names@, " "@), bank@),
{
    proof {
        reveal_strlit(" ");
    }
    let pieces = split_by(names, " ");
    let ghost piece_views = pieces@.map_values(|p: String| p@);
    let mut out: Vec<Tag> = Vec::new();
    let mut i: usize = 0;
    proof {
        assert(piece_views.skip(0) =~= piece_views);
        assert(out@ + spec_lookup_tags(piece_views, bank@) =~= spec_lookup_tags(
            piece_views,
            bank@,
        ));
    }
    while i < pieces.len()
        invariant
            0 <= i <= pieces@.len(),
            piece_views == pieces@.map_values(|p: String| p@),
            spec_lookup_tags(piece_views, bank@) == out@ + spec_lookup_tags(
                piece_views.skip(i as int),
                bank@,
            ),
        decreases pieces@.len() - i,
    {
        let ghost pre = out@;
        proof {
            assert(piece_views.skip(i as int)[0] == piece_views[i as int]);
            assert(piece_views.skip(i as int).drop_first() =~= piece_views.skip(i as int + 1));
        }
        match find_tag(bank, pieces[i].as_str()) {
            Some(t) => {
                out.push(t);
                proof {
                    let found = spec_find_tag(bank@, piece_views[i as int]).unwrap();
                    assert(out@ =~= pre + seq![found]);
                    assert((pre + seq![found]) + spec_lookup_tags(
                        piece_views.skip(i as int + 1),
                        bank@,
                    ) =~= pre + (seq![found] + spec_lookup_tags(
                        piece_views.skip(i as int + 1),
                        bank@,
                    )));
                }
            },
            None => {},
        }
        i += 1;
    }
    proof {
        assert(piece_views.skip(pieces@.len() as int) =~= Seq::<Seq<char>>::empty());
        assert(out@ + Seq::<Tag>::empty() =~= out@);
    }
    out
}

/// A frequency record of the corpus.
#[derive(Debug)]
pub struct Innocent {
    pub vocabulary: String,
    pub frequency: u32,
}

/// The raw shape of a frequency record.
#[derive(Debug)]
pub struct ParseInnocent {
    pub vocabulary: String,
    pub _freq: String,
    pub frequency: u32,
}

impl Innocent {
    pub fn from_parsed(parsed: ParseInnocent, _tags: Option<&Vec<Tag>>) -> (r: Innocent)
        ensures
            r.vocabulary == parsed.vocabulary,
            r.frequency == parsed.frequency,
    {
        Innocent { vocabulary: parsed.vocabulary, frequency: parsed.frequency }
    }

    pub fn key(&self) -> (r: String)
        ensures
            r == self.vocabulary,
    {
        self.vocabulary.clone()
    }
}

/// A vocabulary or name record of the term banks.
#[derive(Debug)]
pub struct Jmdict {
    pub vocabulary: String,
    pub reading: String,
    pub romaji: String,
    pub tags: Vec<Tag>,
    pub meanings: Vec<String>,
    pub id: u32,
}

/// The raw shape of a term bank record; its tags are one
/// space-separated string.
#[derive(Debug)]
pub struct ParseJmdict {
    pub vocabulary: String,
    pub reading: String,
    pub romaji: String,
    pub tags: String,
    pub meanings: Vec<String>,
    pub id: u32,
}

impl Jmdict {
    pub fn from_parsed(parsed: ParseJmdict, tags: Option<&Vec<Tag>>) -> (r: Jmdict)
        requires
            tags is Some,
        ensures
            r.vocabulary == parsed.vocabulary,
            r.reading == parsed.reading,
            r.romaji == parsed.romaji,
            r.meanings == parsed.meanings,
            r.id == parsed.id,
            r.tags@ == spec_lookup_tags(split_seq(parsed.tags@, " "@), tags->Some_0@),
    {
        let bank = match tags {
            Some(bank) => bank,
            None => unreached(),
        };
        let resolved = lookup_tags(parsed.tags.as_str(), bank);
        Jmdict {
            vocabulary: parsed.vocabulary,
            reading: parsed.reading,
            romaji: parsed.romaji,
            tags: resolved,
            meanings: parsed.meanings,
            id: parsed.id,
        }
    }

    pub fn key(&self) -> (r: u32)
        ensures
            r == self.id,
    {
        self.id
    }
}

/// A kanji-to-radicals record.
#[derive(Debug)]
pub struct Krad {
    pub kanji: String,
    pub radicals: Vec<String>,
}

impl Krad {
    pub fn from_parsed(parsed: Krad, _tags: Option<&Vec<Tag>>) -> (r: Krad)
        ensures
            r == parsed,
    {
        parsed
    }

    pub fn key(&self) -> (r: String)
        ensures
            r == self.kanji,
    {
        self.kanji.clone()
    }
}

/// A radical-to-kanji record.
#[derive(Debug)]
pub struct Radk {
    pub radical: String,
    pub strokes: u8,
    pub kanji: String,
}

impl Radk {
    pub fn from_parsed(parsed: Radk, _tags: Option<&Vec<Tag>>) -> (r: Radk)
        ensures
            r == parsed,
    {
        parsed
    }
}

/// A kanji record of the kanji bank.
#[derive(Debug)]
pub struct Kanjidic {
    pub kanji: String,
    pub kun_yomi: String,
    pub on_yomi: String,
    pub tags: Vec<Tag>,
    pub meanings: Vec<String>,
    pub attributes: Vec<(String, String)>,
}

/// The raw shape of a kanji bank record.
#[derive(Debug)]
pub struct ParseKanjidic {
    pub kanji: String,
    pub kun_yomi: String,
    pub on_yomi: String,
    pub tags: String,
    pub meanings: Vec<String>,
    pub attributes: Vec<(String, String)>,
}

impl Kanjidic {
    pub fn from_parsed(parsed: ParseKanjidic, tags: Option<&Vec<Tag>>) -> (r: Kanjidic)
        requires
            tags is Some,
        ensures
            r.kanji == parsed.kanji,
            r.kun_yomi == parsed.kun_yomi,
            r.on_yomi == parsed.on_yomi,
            r.meanings == parsed.meanings,
            r.attributes == parsed.attributes,
            r.tags@ == spec_lookup_tags(split_seq(parsed.tags@, " "@), tags->Some_0@),
    {
        let bank = match tags {
            Some(bank) => bank,
            None => unreached(),
        };
        let resolved = lookup_tags(parsed.tags.as_str(), bank);
        Kanjidic {
            kanji: parsed.kanji,
            kun_yomi: parsed.kun_yomi,
            on_yomi: parsed.on_yomi,
            tags: resolved,
            meanings: parsed.meanings,
            attributes: parsed.attributes,
        }
    }
}

/// One pitch accent reading.
#[derive(Debug)]
pub struct Pitches {
    pub position: u16,
    pub tags: Vec<Tag>,
}

/// The raw shape of one pitch accent reading.
#[derive(Debug)]
pub struct ParsePitches {
    pub position: u16,
    pub tags: Option<Vec<String>>,
}

/// The tags of the bank named by the given name strings.
pub open spec fn spec_lookup_named_tags(names: Seq<String>, bank: Seq<Tag>) -> Seq<Tag>
    decreases names.len(),
{
    if names.len() == 0 {
        Seq::empty()
    } else {
        match spec_find_tag(bank, names[0]@) {
            Some(t) => seq![t] + spec_lookup_named_tags(names.drop_first(), bank),
            None => spec_lookup_named_tags(names.drop_first(), bank),
        }
    }
}

impl Pitches {
    pub fn from_parsed(parsed: ParsePitches, tags: Option<&Vec<Tag>>) -> (r: Pitches)
        requires
            tags is Some,
        ensures
            r.position == parsed.position,
            r.tags@ == spec_lookup_named_tags(
                match parsed.tags {
                    Some(names) => names@,
                    None => Seq::empty(),
                },
                tags->Some_0@,
            ),
    {
        let bank = match tags {
            Some(bank) => bank,
            None => unreached(),
        };
        let names: Vec<String> = match parsed.tags {
            Some(names) => names,
            None => Vec::new(),
        };
        let mut out: Vec<Tag> = Vec::new();
        let mut i: usize = 0;
        proof {
            assert(names@.skip(0) =~= names@);
            assert(out@ + spec_lookup_named_tags(names@, bank@) =~= spec_lookup_named_tags(
                names@,
                bank@,
            ));
        }
        while i < names.len()
            invariant
                0 <= i <= names@.len(),
                spec_lookup_named_tags(names@, bank@) == out@ + spec_lookup_named_tags(
                    names@.skip(i as int),
                    bank@,
                ),
            decreases names@.len() - i,
        {
            let ghost pre = out@;
            proof {
                assert(names@.skip(i as int)[0] == names@[i as int]);
                assert(names@.skip(i as int).drop_first() =~= names@.skip(i as int + 1));
            }
            match find_tag(bank, names[i].as_str()) {
                Some(t) => {
                    out.push(t);
                    proof {
                        let found = spec_find_tag(bank@, names@[i as int]@).unwrap();
                        assert(out@ =~= pre + seq![found]);
                        assert((pre + seq![found]) + spec_lookup_named_tags(
                            names@.skip(i as int + 1),
                            bank@,
                        ) =~= pre + (seq![found] + spec_lookup_named_tags(
                            names@.skip(i as int + 1),
                            bank@,
                        )));
                    }
                },
                None => {},
            }
            i += 1;
        }
        proof {
            assert(names@.skip(names@.len() as int) =~= Seq::<String>::empty());
            assert(out@ + Seq::<Tag>::empty() =~= out@);
        }
        Pitches { position: parsed.position, tags: out }
    }
}

/// The pitch accents of one reading.
#[derive(Debug)]
pub struct Pitch {
    pub reading: String,
    pub pitches: Vec<Pitches>,
}

/// The raw shape of a pitch record.
#[derive(Debug)]
pub struct ParsePitch {
    pub reading: String,
    pub pitches: Vec<ParsePitches>,
}

/// The tag names one pitch reading carries, or none.
pub open spec fn pitch_tag_names(parsed: ParsePitches) -> Seq<String> {
    match parsed.tags {
        Some(names) => names@,
        None => Seq::empty(),
    }
}

impl Pitch {
    pub fn from_parsed(parsed: ParsePitch, tags: Option<&Vec<Tag>>) -> (r: Pitch)
        requires
            tags is Some,
        ensures
            r.reading == parsed.reading,
            r.pitches@.len() == parsed.pitches@.len(),
            forall|k: int|
                0 <= k < r.pitches@.len() ==> (#[trigger] r.pitches@[k]).position
                    == parsed.pitches@[k].position && r.pitches@[k].tags@
                    == spec_lookup_named_tags(
                    pitch_tag_names(parsed.pitches@[k]),
                    tags->Some_0@,
                ),
    {
        let ghost all = parsed.pitches@;
        let reading = parsed.reading;
        let mut pitches: Vec<Pitches> = Vec::new();
        let mut source = parsed.pitches;
        let n = source.len();
        let mut i: usize = 0;
        while i < n
            invariant
                0 <= i <= n,
                n == all.len(),
                source@ == all.skip(i as int),
                pitches@.len() == i,
                tags is Some,
                forall|k: int|
                    0 <= k < i ==> (#[trigger] pitches@[k]).position == all[k].position
                        && pitches@[k].tags@ == spec_lookup_named_tags(
                        pitch_tag_names(all[k]),
                        tags->Some_0@,
                    ),
            decreases n - i,
        {
            let ghost old_source = source@;
            let one = source.remove(0);
            proof {
                assert(one == all[i as int]);
                assert(source@ =~= all.skip(i as int + 1));
            }
            pitches.push(Pitches::from_parsed(one, tags));
            i += 1;
        }
        Pitch { reading, pitches }
    }
}

/// A pitch accent record.
#[derive(Debug)]
pub struct Kanjium {
    pub vocabulary: String,
    pub pitch: Pitch,
}

/// The raw shape of a pitch accent record.
#[derive(Debug)]
pub struct ParseKanjium {
    pub vocabulary: String,
    pub _name: String,
    pub pitch: ParsePitch,
}

impl Kanjium {
    pub fn from_parsed(parsed: ParseKanjium, tags: Option<&Vec<Tag>>) -> (r: Kanjium)
        requires
            tags is Some,
        ensures
            r.vocabulary == parsed.vocabulary,
    {
        Kanjium {
            vocabulary: parsed.vocabulary,
            pitch: Pitch::from_parsed(parsed.pitch, tags),
        }
    }

    pub fn key(&self) -> (r: String)
        ensures
            r == self.vocabulary,
    {
        self.vocabulary.clone()
    }
}

/// The pieces joined with the separator between them.
pub open spec fn spec_join(ms: Seq<Seq<char>>, sep: Seq<char>) -> Seq<char>
    decreases ms.len(),
{
    if ms.len() == 0 {
        Seq::empty()
    } else if ms.len() == 1 {
        ms[0]
    } else {
        spec_join(ms.drop_last(), sep) + sep + ms.last()
    }
}

/// Joins a string list with the separator.
pub fn join_strings(ms: &Vec<String>, sep: &str) -> (r: String)
    ensures
        r@ == spec_join(ms@.map_values(|s: String| s@), sep@),
{
    let ghost mv = ms@.map_values(|s: String| s@);
    let mut out = String::new();
    let mut i: usize = 0;
    while i < ms.len()
        invariant
            0 <= i <= mv.len(),
            mv == ms@.map_values(|s: String| s@),
            out@ == spec_join(mv.subrange(0, i as int), sep@),
        decreases mv.len() - i,
    {
        proof {
            assert(mv.subrange(0, i as int + 1).drop_last() =~= mv.subrange(0, i as int));
            assert(mv.subrange(0, i as int + 1).last() == mv[i as int]);
            if i == 0 {
                assert(mv.subrange(0, 1)[0] == mv[0]);
            }
        }
        if i > 0 {
            out.append(sep);
        }
        out.append(ms[i].as_str());
        i += 1;
    }
    proof {
        assert(mv.subrange(0, mv.len() as int) =~= mv);
    }
    out
}

/// The abstract value of a term bank record.
pub struct JmdictModel {
    pub vocabulary: Seq<char>,
    pub reading: Seq<char>,
    pub romaji: Seq<char>,
    pub tags: Seq<Tag>,
    pub meanings: Seq<Seq<char>>,
    pub id: u32,
}

impl View for Jmdict {
    type V = JmdictModel;

    open spec fn view(&self) -> JmdictModel {
        JmdictModel {
            vocabulary: self.vocabulary@,
            reading: self.reading@,
            romaji: self.romaji@,
            tags: self.tags@,
            meanings: self.meanings@.map_values(|s: String| s@),
            id: self.id,
        }
    }
}

/// One merging step: a record whose id matches the last group joins it,
/// contributing its joined meaning list once; any other record opens a
/// new group.
pub open spec fn spec_merge_step(acc: Seq<JmdictModel>, m: JmdictModel) -> Seq<JmdictModel> {
    let joined = spec_join(m.meanings, ", "@);
    if acc.len() > 0 && acc.last().id == m.id {
        if acc.last().meanings.contains(joined) {
            acc
        } else {
            acc.update(
                acc.len() - 1,
                JmdictModel { meanings: acc.last().meanings.push(joined), ..acc.last() },
            )
        }
    } else {
        acc.push(JmdictModel { meanings: seq![joined], ..m })
    }
}

/// Consecutive records that share an id merged into one record per run.
pub open spec fn spec_merge_jmdicts(models: Seq<JmdictModel>) -> Seq<JmdictModel>
    decreases models.len(),
{
    if models.len() == 0 {
        Seq::empty()
    } else {
        spec_merge_step(spec_merge_jmdicts(models.drop_last()), models.last())
    }
}

/// Whether a string list holds the given string.
fn contains_view(list: &Vec<String>, needle: &str) -> (r: bool)
    ensures
        r == list@.map_values(|s: String| s@).contains(needle@),
{
    let mut i: usize = 0;
    while i < list.len()
        invariant
            0 <= i <= list@.len(),
            forall|j: int| 0 <= j < i ==> #[trigger] list@[j]@ != needle@,
        decreases list@.len() - i,
    {
        if str_eq(list[i].as_str(), needle) {
            proof {
                assert(list@.map_values(|s: String| s@)[i as int] == needle@);
            }
            return true;
        }
        proof {
            assert(list@[i as int]@ != needle@);
        }
        i += 1;
    }
    proof {
        if list@.map_values(|s: String| s@).contains(needle@) {
            let mapped = list@.map_values(|s: String| s@);
            let j = choose|j: int| 0 <= j < mapped.len() && #[trigger] mapped[j] == needle@;
            assert(list@[j]@ == needle@);
            assert(false);
        }
    }
    false
}

/// Merges consecutive term bank records that share an id: the first
/// record of a run keeps its fields, and each record of the run
/// contributes its meanings, joined into one string, without repeats.
pub fn merge_jmdicts(records: Vec<Jmdict>) -> (r: Vec<Jmdict>)
    ensures
        r@.map_values(|j: Jmdict| j@) == spec_merge_jmdicts(
            records@.map_values(|j: Jmdict| j@),
        ),
{
    proof {
        reveal_strlit(", ");
    }
    let ghost models = records@.map_values(|j: Jmdict| j@);
    let mut source = records;
    let mut out: Vec<Jmdict> = Vec::new();
    let n = source.len();
    let mut i: usize = 0;
    proof {
        assert(models.subrange(0, 0) =~= Seq::<JmdictModel>::empty());
    }
    while i < n
        invariant
            0 <= i <= n,
            n == models.len(),
            source@.map_values(|j: Jmdict| j@) == models.skip(i as int),
            out@.map_values(|j: Jmdict| j@) == spec_merge_jmdicts(models.subrange(0, i as int)),
        decreases n - i,
    {
        let ghost pre = out@.map_values(|j: Jmdict| j@);
        let ghost old_source = source@;
        proof {
            reveal_strlit(", ");
            assert(models.subrange(0, i as int + 1).drop_last() =~= models.subrange(0, i as int));
            assert(models.subrange(0, i as int + 1).last() == models[i as int]);
            assert(old_source.map_values(|j: Jmdict| j@).len() == models.skip(i as int).len());
            assert(old_source.map_values(|j: Jmdict| j@)[0] == models[i as int]);
        }
        let record = source.remove(0);
        proof {
            assert(record@ == models[i as int]);
            assert(source@ =~= old_source.drop_first());
            assert forall|j: int| 0 <= j < source@.len() implies #[trigger] source@[j]@
                == models.skip(i as int + 1)[j] by {
                assert(source@[j] == old_source[j + 1]);
                assert(old_source.map_values(|x: Jmdict| x@)[j + 1] == models.skip(i as int)[j
                    + 1]);
            }
            assert(source@.map_values(|x: Jmdict| x@) =~= models.skip(i as int + 1));
        }
        let joined = join_strings(&record.meanings, ", ");
        let same_group = if out.len() > 0 {
            out[out.len() - 1].id == record.id
        } else {
            false
        };
        if same_group {
            let mut last = match out.pop() {
                Some(last) => last,
                None => unreached(),
            };
            let ghost last_model = last@;
            if !contains_view(&last.meanings, joined.as_str()) {
                last.meanings.push(joined);
                proof {
                    assert(last@ == JmdictModel {
                        meanings: last_model.meanings.push(
                            spec_join(models[i as int].meanings, ", "@),
                        ),
                        ..last_model
                    }) by {
                        assert(last@.meanings =~= last_model.meanings.push(
                            spec_join(models[i as int].meanings, ", "@),
                        ));
                    }
                }
            }
            out.push(last);
            proof {
                assert(out@.map_values(|j: Jmdict| j@) =~= spec_merge_step(
                    pre,
                    models[i as int],
                )) by {
                    assert(pre.drop_last() =~= out@.map_values(|j: Jmdict| j@).drop_last());
                    assert(out@.map_values(|j: Jmdict| j@) =~= pre.update(
                        pre.len() - 1,
                        out@.map_values(|j: Jmdict| j@).last(),
                    ));
                }
            }
        } else {
            let merged = Jmdict {
                vocabulary: record.vocabulary,
                reading: record.reading,
                romaji: record.romaji,
                tags: record.tags,
                meanings: {
                    let mut one: Vec<String> = Vec::new();
                    one.push(joined);
                    one
                },
                id: record.id,
            };
            proof {
                assert(merged@.meanings =~= seq![spec_join(models[i as int].meanings, ", "@)]);
            }
            out.push(merged);
            proof {
                assert(out@.map_values(|j: Jmdict| j@) =~= pre.push(merged@));
                assert(merged@ == JmdictModel {
                    meanings: seq![spec_join(models[i as int].meanings, ", "@)],
                    ..models[i as int]
                });
            }
        }
        i += 1;
    }
    proof {
        assert(models.subrange(0, n as int) =~= models);
    }
    out
}

/// The loaded banks, one variant per source kind.
pub enum BasicDicts {
    Jmdicts(Vec<Jmdict>),
    Jmnedicts(Vec<Jmdict>),
    Kanjiums(Vec<Kanjium>),
    Kanjidics(Vec<Kanjidic>),
    InnocentKanjis(Vec<Innocent>),
    InnocentVocabs(Vec<Innocent>),
    Krads(Vec<Krad>),
    Radks(Vec<Radk>),
}

} // verus!
