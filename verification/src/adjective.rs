use vstd::prelude::*;

use crate::conjugation::ConjugationModel;
use crate::conjugation::GrammaticalForm;
use crate::conjugation::VerbConjugation;
use crate::conjugation::any_starts_with;
use crate::conjugation::apply_rule;
use crate::conjugation::spec_kana_source;
use crate::conjugation::tag_views;
use crate::strutil::str_eq;

verus! {

/// The recognized adjective category tags.
#[derive(Clone, Copy, PartialEq, Eq, Structural, Debug)]
pub enum AdjectiveCategory {
    AdjI,
    AdjIx,
}

/// The adjective category a tag string names, if any.
pub open spec fn spec_parse_adjective_tag(s: Seq<char>) -> Option<AdjectiveCategory> {
    if s == "adj-i"@ {
        Some(AdjectiveCategory::AdjI)
    } else if s == "adj-ix"@ {
        Some(AdjectiveCategory::AdjIx)
    } else {
        None
    }
}

pub fn parse_adjective_tag(tag: &str) -> (r: Option<AdjectiveCategory>)
    ensures
        r == spec_parse_adjective_tag(tag@),
{
    if str_eq(tag, "adj-i") {
        Some(AdjectiveCategory::AdjI)
    } else if str_eq(tag, "adj-ix") {
        Some(AdjectiveCategory::AdjIx)
    } else {
        None
    }
}

/// The first tag that names an adjective category, in list order.
pub open spec fn spec_first_adjective_tag(tags: Seq<Seq<char>>) -> Option<AdjectiveCategory>
    decreases tags.len(),
{
    if tags.len() == 0 {
        None
    } else {
        match spec_parse_adjective_tag(tags[0]) {
            Some(cat) => Some(cat),
            None => spec_first_adjective_tag(tags.drop_first()),
        }
    }
}

pub fn first_adjective_tag(tags: &Vec<String>) -> (r: Option<AdjectiveCategory>)
    ensures
        r == spec_first_adjective_tag(tag_views(tags@)),
{
    let mut i: usize = 0;
    proof {
        assert(tag_views(tags@).skip(0) =~= tag_views(tags@));
    }
    while i < tags.len()
        invariant
            0 <= i <= tags@.len(),
            spec_first_adjective_tag(tag_views(tags@)) == spec_first_adjective_tag(
                tag_views(tags@).skip(i as int),
            ),
        decreases tags@.len() - i,
    {
        let parsed = parse_adjective_tag(tags[i].as_str());
        proof {
            assert(tag_views(tags@).skip(i as int)[0] == tag_views(tags@)[i as int]);
            assert(tag_views(tags@).skip(i as int).drop_first() =~= tag_views(tags@).skip(
                i as int + 1,
            ));
        }
        if let Some(cat) = parsed {
            return Some(cat);
        }
        i += 1;
    }
    None
}

/// An adjective ending replacement: the marked class eats two characters
/// when the next to last one is the i vowel, any other adjective one.
pub open spec fn spec_adjective_form(
    v: Seq<char>,
    cat: AdjectiveCategory,
    two: Seq<char>,
    one: Seq<char>,
) -> Seq<char> {
    if v[v.len() - 2] == 'い' && cat == AdjectiveCategory::AdjIx {
        apply_rule(v, (two, 2))
    } else {
        apply_rule(v, (one, 1))
    }
}

fn adjective_form(
    adjective: &str,
    category: AdjectiveCategory,
    two: &str,
    one: &str,
) -> (r: String)
    requires
        adjective@.len() >= 2,
    ensures
        r@ == spec_adjective_form(adjective@, category, two@, one@),
{
    let n = adjective.unicode_len();
    let penultimate = adjective.get_char(n - 2);
    let is_ix = match category {
        AdjectiveCategory::AdjIx => true,
        AdjectiveCategory::AdjI => false,
    };
    if penultimate == 'い' && is_ix {
        let stem = adjective.substring_char(0, n - 2);
        stem.to_owned().concat(two)
    } else {
        let stem = adjective.substring_char(0, n - 1);
        stem.to_owned().concat(one)
    }
}

pub open spec fn spec_adjective_negative(v: Seq<char>, cat: AdjectiveCategory) -> Seq<char> {
    spec_adjective_form(v, cat, "よくない"@, "くない"@)
}

pub fn negative(adjective: &str, category: AdjectiveCategory) -> (r: String)
    requires
        adjective@.len() >= 2,
    ensures
        r@ == spec_adjective_negative(adjective@, category),
{
    adjective_form(adjective, category, "よくない", "くない")
}

pub open spec fn spec_adjective_past(v: Seq<char>, cat: AdjectiveCategory) -> Seq<char> {
    spec_adjective_form(v, cat, "よかった"@, "かった"@)
}

pub fn past(adjective: &str, category: AdjectiveCategory) -> (r: String)
    requires
        adjective@.len() >= 2,
    ensures
        r@ == spec_adjective_past(adjective@, category),
{
    adjective_form(adjective, category, "よかった", "かった")
}

pub open spec fn spec_adjective_te_form(v: Seq<char>, cat: AdjectiveCategory) -> Seq<char> {
    spec_adjective_form(v, cat, "よくて"@, "くて"@)
}

pub fn te_form(adjective: &str, category: AdjectiveCategory) -> (r: String)
    requires
        adjective@.len() >= 2,
    ensures
        r@ == spec_adjective_te_form(adjective@, category),
{
    adjective_form(adjective, category, "よくて", "くて")
}

pub open spec fn spec_adjective_adverbial(v: Seq<char>, cat: AdjectiveCategory) -> Seq<char> {
    spec_adjective_form(v, cat, "よく"@, "く"@)
}

pub fn adverbial(adjective: &str, category: AdjectiveCategory) -> (r: String)
    requires
        adjective@.len() >= 2,
    ensures
        r@ == spec_adjective_adverbial(adjective@, category),
{
    adjective_form(adjective, category, "よく", "く")
}

pub open spec fn spec_adjective_past_negative(v: Seq<char>, cat: AdjectiveCategory) -> Seq<char> {
    spec_adjective_form(v, cat, "よくなかった"@, "くなかった"@)
}

pub fn past_negative(adjective: &str, category: AdjectiveCategory) -> (r: String)
    requires
        adjective@.len() >= 2,
    ensures
        r@ == spec_adjective_past_negative(adjective@, category),
{
    adjective_form(adjective, category, "よくなかった", "くなかった")
}

/// One row of the adjective table.
pub open spec fn adjective_row(
    kanji: Seq<char>,
    kana: Seq<char>,
    forms: Seq<GrammaticalForm>,
) -> ConjugationModel {
    ConjugationModel { kanji_form: kanji, kana_form: kana, grammatical_forms: forms }
}

/// The five adjective forms, in the order they are emitted.
pub open spec fn spec_adjective_table(ka: Seq<char>, kn: Seq<char>, c: AdjectiveCategory) -> Seq<
    ConjugationModel,
> {
    seq![
        adjective_row(
            spec_adjective_negative(ka, c),
            spec_adjective_negative(kn, c),
            seq![GrammaticalForm::Negative],
        ),
        adjective_row(
            spec_adjective_past(ka, c),
            spec_adjective_past(kn, c),
            seq![GrammaticalForm::Past],
        ),
        adjective_row(
            spec_adjective_te_form(ka, c),
            spec_adjective_te_form(kn, c),
            seq![GrammaticalForm::TeForm],
        ),
        adjective_row(
            spec_adjective_adverbial(ka, c),
            spec_adjective_adverbial(kn, c),
            seq![GrammaticalForm::Adverbial],
        ),
        adjective_row(
            spec_adjective_past_negative(ka, c),
            spec_adjective_past_negative(kn, c),
            seq![GrammaticalForm::Past, GrammaticalForm::Negative],
        ),
    ]
}

/// What the adjective conjugator emits for a lemma, reading and tag list.
pub open spec fn spec_generate_adjective_conjugations(
    kanji: Seq<char>,
    reading: Seq<char>,
    tags: Seq<Seq<char>>,
) -> Option<Seq<ConjugationModel>> {
    if !any_starts_with(tags, 'a') || kanji.len() == 0 {
        None
    } else {
        match spec_first_adjective_tag(tags) {
            Some(cat) => Some(
                spec_adjective_table(kanji, spec_kana_source(kanji, reading), cat),
            ),
            None => None,
        }
    }
}

fn forms_one(a: GrammaticalForm) -> (r: Vec<GrammaticalForm>)
    ensures
        r@ == seq![a],
{
    let mut v: Vec<GrammaticalForm> = Vec::new();
    v.push(a);
    proof {
        assert(v@ =~= seq![a]);
    }
    v
}

fn forms_two(a: GrammaticalForm, b: GrammaticalForm) -> (r: Vec<GrammaticalForm>)
    ensures
        r@ == seq![a, b],
{
    let mut v: Vec<GrammaticalForm> = Vec::new();
    v.push(a);
    v.push(b);
    proof {
        assert(v@ =~= seq![a, b]);
    }
    v
}

/// Produces the five inflected forms of an adjective lemma, or nothing
/// when no tag starts with the adjective letter, the lemma is empty, or
/// no tag names a recognized adjective category.
pub fn generate_all_adjective_conjugations(
    adjective_kanji_form: &str,
    adjective_reading_form: &str,
    tags: &Vec<String>,
) -> (r: Option<Vec<VerbConjugation>>)
    requires
        (any_starts_with(tag_views(tags@), 'a') && adjective_kanji_form@.len() > 0
            && spec_first_adjective_tag(tag_views(tags@)) is Some) ==> {
            &&& adjective_kanji_form@.len() >= 2
            &&& spec_kana_source(adjective_kanji_form@, adjective_reading_form@).len() >= 2
        },
    ensures
        r matches Some(forms) ==> Some(forms@.map_values(|x: VerbConjugation| x@))
            == spec_generate_adjective_conjugations(
            adjective_kanji_form@,
            adjective_reading_form@,
            tag_views(tags@),
        ),
        r is Some <==> spec_generate_adjective_conjugations(
            adjective_kanji_form@,
            adjective_reading_form@,
            tag_views(tags@),
        ) is Some,
{
    let has_adjective_tag = crate::conjugation::any_tag_starts_with(tags, 'a');
    if !has_adjective_tag || adjective_kanji_form.unicode_len() == 0 {
        return None;
    }
    match first_adjective_tag(tags) {
        None => None,
        Some(category) => {
            let kana_form: &str = if adjective_reading_form.unicode_len() == 0 {
                adjective_kanji_form
            } else {
                adjective_reading_form
            };
            let mut out: Vec<VerbConjugation> = Vec::new();
            out.push(VerbConjugation {
                kanji_form: negative(adjective_kanji_form, category),
                kana_form: negative(kana_form, category),
                grammatical_forms: forms_one(GrammaticalForm::Negative),
            });
            out.push(VerbConjugation {
                kanji_form: past(adjective_kanji_form, category),
                kana_form: past(kana_form, category),
                grammatical_forms: forms_one(GrammaticalForm::Past),
            });
            out.push(VerbConjugation {
                kanji_form: te_form(adjective_kanji_form, category),
                kana_form: te_form(kana_form, category),
                grammatical_forms: forms_one(GrammaticalForm::TeForm),
            });
            out.push(VerbConjugation {
                kanji_form: adverbial(adjective_kanji_form, category),
                kana_form: adverbial(kana_form, category),
                grammatical_forms: forms_one(GrammaticalForm::Adverbial),
            });
            out.push(VerbConjugation {
                kanji_form: past_negative(adjective_kanji_form, category),
                kana_form: past_negative(kana_form, category),
                grammatical_forms: forms_two(GrammaticalForm::Past, GrammaticalForm::Negative),
            });
            proof {
                assert(out@.map_values(|x: VerbConjugation| x@) =~= spec_adjective_table(
                    adjective_kanji_form@,
                    kana_form@,
                    category,
                ));
            }
            Some(out)
        },
    }
}

} // verus!
