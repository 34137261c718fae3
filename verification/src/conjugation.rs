use vstd::prelude::*;

use crate::strutil::str_eq;

verus! {

/// A grammatical feature of a conjugated surface form. A set of these
/// features encodes a composed form.
#[derive(Clone, Copy, PartialEq, Eq, Structural, Debug)]
pub enum GrammaticalForm {
    Causative,
    Conditional,
    Desire,
    Imperative,
    Negative,
    Passive,
    Past,
    Plain,
    Polite,
    Potential,
    Short,
    TeForm,
    Volitional,
    ProvisionalConditional,
    Adverbial,
}

/// The recognized verb category tags.
#[derive(Clone, Copy, PartialEq, Eq, Structural, Debug)]
pub enum VerbCategory {
    V1,
    V1S,
    V5Aru,
    V5B,
    V5G,
    V5K,
    V5KS,
    V5M,
    V5N,
    V5R,
    V5RI,
    V5S,
    V5T,
    V5U,
    V5US,
    Vk,
    VsI,
    VsS,
    Vz,
}

/// One conjugated form: the surface in original orthography, the surface
/// in kana, and the grammatical features the form carries.
#[derive(Clone, Debug)]
pub struct VerbConjugation {
    pub kanji_form: String,
    pub kana_form: String,
    pub grammatical_forms: Vec<GrammaticalForm>,
}

/// The mathematical value of a conjugated form.
pub struct ConjugationModel {
    pub kanji_form: Seq<char>,
    pub kana_form: Seq<char>,
    pub grammatical_forms: Seq<GrammaticalForm>,
}

impl View for VerbConjugation {
    type V = ConjugationModel;

    open spec fn view(&self) -> ConjugationModel {
        ConjugationModel {
            kanji_form: self.kanji_form@,
            kana_form: self.kana_form@,
            grammatical_forms: self.grammatical_forms@,
        }
    }
}

/// A conjugation rule: the suffix to append and how many trailing
/// characters of the dictionary form it replaces.
pub open spec fn apply_rule(v: Seq<char>, rule: (Seq<char>, int)) -> Seq<char> {
    v.subrange(0, v.len() - rule.1) + rule.0
}

/// Whether the dictionary form is long enough for the rule.
pub open spec fn rule_fits(v: Seq<char>, rule: (Seq<char>, int)) -> bool {
    0 <= rule.1 <= v.len()
}

/// Strips `count` trailing characters and appends `suffix`.
fn strip_append(verb: &str, count: usize, suffix: &str) -> (r: String)
    requires
        count <= verb@.len(),
    ensures
        r@ == verb@.subrange(0, verb@.len() - count) + suffix@,
{
    let n = verb.unicode_len();
    let stem = verb.substring_char(0, n - count);
    let owned = stem.to_owned();
    owned.concat(suffix)
}

/// The rule of the plain negative, per category.
pub open spec fn negative_rule(cat: VerbCategory, reading: bool) -> (Seq<char>, int) {
    match cat {
        VerbCategory::V1 | VerbCategory::V1S => ("ない"@, 1),
        VerbCategory::V5B => ("ばない"@, 1),
        VerbCategory::V5G => ("がない"@, 1),
        VerbCategory::V5K | VerbCategory::V5KS => ("かない"@, 1),
        VerbCategory::V5M => ("まない"@, 1),
        VerbCategory::V5N => ("なない"@, 1),
        VerbCategory::V5R | VerbCategory::V5Aru => ("らない"@, 1),
        VerbCategory::V5RI => ("ない"@, 2),
        VerbCategory::V5S => ("さない"@, 1),
        VerbCategory::V5T => ("たない"@, 1),
        VerbCategory::V5U | VerbCategory::V5US => ("わない"@, 1),
        VerbCategory::Vk => if reading { ("こない"@, 2) } else { ("ない"@, 1) },
        VerbCategory::VsI | VerbCategory::VsS => ("しない"@, 2),
        VerbCategory::Vz => ("じない"@, 2),
    }
}

pub open spec fn spec_negative(v: Seq<char>, cat: VerbCategory, reading: bool) -> Seq<char> {
    apply_rule(v, negative_rule(cat, reading))
}

fn negative(verb: &str, category: VerbCategory, reading: bool) -> (r: String)
    requires
        rule_fits(verb@, negative_rule(category, reading)),
    ensures
        r@ == spec_negative(verb@, category, reading),
{
    match category {
        VerbCategory::V1 | VerbCategory::V1S => strip_append(verb, 1, "ない"),
        VerbCategory::V5B => strip_append(verb, 1, "ばない"),
        VerbCategory::V5G => strip_append(verb, 1, "がない"),
        VerbCategory::V5K | VerbCategory::V5KS => strip_append(verb, 1, "かない"),
        VerbCategory::V5M => strip_append(verb, 1, "まない"),
        VerbCategory::V5N => strip_append(verb, 1, "なない"),
        VerbCategory::V5R | VerbCategory::V5Aru => strip_append(verb, 1, "らない"),
        VerbCategory::V5RI => strip_append(verb, 2, "ない"),
        VerbCategory::V5S => strip_append(verb, 1, "さない"),
        VerbCategory::V5T => strip_append(verb, 1, "たない"),
        VerbCategory::V5U | VerbCategory::V5US => strip_append(verb, 1, "わない"),
        VerbCategory::Vk => if reading {
            strip_append(verb, 2, "こない")
        } else {
            strip_append(verb, 1, "ない")
        },
        VerbCategory::VsI | VerbCategory::VsS => strip_append(verb, 2, "しない"),
        VerbCategory::Vz => strip_append(verb, 2, "じない"),
    }
}

/// The rule of the masu stem, per category.
pub open spec fn masu_stem_rule(cat: VerbCategory, reading: bool) -> (Seq<char>, int) {
    match cat {
        VerbCategory::V1 | VerbCategory::V1S => (""@, 1),
        VerbCategory::V5Aru | VerbCategory::V5U | VerbCategory::V5US => ("い"@, 1),
        VerbCategory::V5B => ("び"@, 1),
        VerbCategory::V5G => ("ぎ"@, 1),
        VerbCategory::V5K | VerbCategory::V5KS => ("き"@, 1),
        VerbCategory::V5M => ("み"@, 1),
        VerbCategory::V5N => ("に"@, 1),
        VerbCategory::V5R | VerbCategory::V5RI => ("り"@, 1),
        VerbCategory::V5S => ("し"@, 1),
        VerbCategory::V5T => ("ち"@, 1),
        VerbCategory::Vk => if reading { ("き"@, 2) } else { (""@, 1) },
        VerbCategory::VsI | VerbCategory::VsS => ("し"@, 2),
        VerbCategory::Vz => ("じ"@, 2),
    }
}

pub open spec fn spec_masu_stem(v: Seq<char>, cat: VerbCategory, reading: bool) -> Seq<char> {
    apply_rule(v, masu_stem_rule(cat, reading))
}

fn masu_stem(verb: &str, category: VerbCategory, reading: bool) -> (r: String)
    requires
        rule_fits(verb@, masu_stem_rule(category, reading)),
    ensures
        r@ == spec_masu_stem(verb@, category, reading),
{
    match category {
        VerbCategory::V1 | VerbCategory::V1S => strip_append(verb, 1, ""),
        VerbCategory::V5Aru | VerbCategory::V5U | VerbCategory::V5US => strip_append(verb, 1, "い"),
        VerbCategory::V5B => strip_append(verb, 1, "び"),
        VerbCategory::V5G => strip_append(verb, 1, "ぎ"),
        VerbCategory::V5K | VerbCategory::V5KS => strip_append(verb, 1, "き"),
        VerbCategory::V5M => strip_append(verb, 1, "み"),
        VerbCategory::V5N => strip_append(verb, 1, "に"),
        VerbCategory::V5R | VerbCategory::V5RI => strip_append(verb, 1, "り"),
        VerbCategory::V5S => strip_append(verb, 1, "し"),
        VerbCategory::V5T => strip_append(verb, 1, "ち"),
        VerbCategory::Vk => if reading {
            strip_append(verb, 2, "き")
        } else {
            strip_append(verb, 1, "")
        },
        VerbCategory::VsI | VerbCategory::VsS => strip_append(verb, 2, "し"),
        VerbCategory::Vz => strip_append(verb, 2, "じ"),
    }
}

/// The rule of the causative, per category.
pub open spec fn causative_rule(cat: VerbCategory, reading: bool) -> (Seq<char>, int) {
    match cat {
        VerbCategory::V1 | VerbCategory::V1S | VerbCategory::V5S => ("させる"@, 1),
        VerbCategory::V5Aru | VerbCategory::V5R | VerbCategory::V5RI => ("らせる"@, 1),
        VerbCategory::V5B => ("ばせる"@, 1),
        VerbCategory::V5G => ("がせる"@, 1),
        VerbCategory::V5K | VerbCategory::V5KS => ("かせる"@, 1),
        VerbCategory::V5M => ("ませる"@, 1),
        VerbCategory::V5N => ("なせる"@, 1),
        VerbCategory::V5T => ("たせる"@, 1),
        VerbCategory::V5U | VerbCategory::V5US => ("わせる"@, 1),
        VerbCategory::Vk => if reading { ("こさせる"@, 2) } else { ("させる"@, 1) },
        VerbCategory::VsI | VerbCategory::VsS => ("させる"@, 2),
        VerbCategory::Vz => ("じさせる"@, 2),
    }
}

pub open spec fn spec_causative(v: Seq<char>, cat: VerbCategory, reading: bool) -> Seq<char> {
    apply_rule(v, causative_rule(cat, reading))
}

fn causative(verb: &str, category: VerbCategory, reading: bool) -> (r: String)
    requires
        rule_fits(verb@, causative_rule(category, reading)),
    ensures
        r@ == spec_causative(verb@, category, reading),
{
    match category {
        VerbCategory::V1 | VerbCategory::V1S | VerbCategory::V5S => strip_append(verb, 1, "させる"),
        VerbCategory::V5Aru | VerbCategory::V5R | VerbCategory::V5RI => strip_append(verb, 1, "らせる"),
        VerbCategory::V5B => strip_append(verb, 1, "ばせる"),
        VerbCategory::V5G => strip_append(verb, 1, "がせる"),
        VerbCategory::V5K | VerbCategory::V5KS => strip_append(verb, 1, "かせる"),
        VerbCategory::V5M => strip_append(verb, 1, "ませる"),
        VerbCategory::V5N => strip_append(verb, 1, "なせる"),
        VerbCategory::V5T => strip_append(verb, 1, "たせる"),
        VerbCategory::V5U | VerbCategory::V5US => strip_append(verb, 1, "わせる"),
        VerbCategory::Vk => if reading {
            strip_append(verb, 2, "こさせる")
        } else {
            strip_append(verb, 1, "させる")
        },
        VerbCategory::VsI | VerbCategory::VsS => strip_append(verb, 2, "させる"),
        VerbCategory::Vz => strip_append(verb, 2, "じさせる"),
    }
}

/// The rule of the imperative, per category.
pub open spec fn imperative_rule(cat: VerbCategory, reading: bool) -> (Seq<char>, int) {
    match cat {
        VerbCategory::V1 => ("ろ"@, 1),
        VerbCategory::V1S => (""@, 0),
        VerbCategory::V5Aru => ("い"@, 1),
        VerbCategory::V5B => ("べ"@, 1),
        VerbCategory::V5G => ("げ"@, 1),
        VerbCategory::V5K | VerbCategory::V5KS => ("け"@, 1),
        VerbCategory::V5M => ("め"@, 1),
        VerbCategory::V5N => ("ね"@, 1),
        VerbCategory::V5R | VerbCategory::V5RI => ("れ"@, 1),
        VerbCategory::V5S => ("せ"@, 1),
        VerbCategory::V5T => ("て"@, 1),
        VerbCategory::V5U | VerbCategory::V5US => ("え"@, 1),
        VerbCategory::Vk => if reading { ("こい"@, 2) } else { ("い"@, 1) },
        VerbCategory::VsI | VerbCategory::VsS => ("しろ"@, 2),
        VerbCategory::Vz => ("じろ"@, 2),
    }
}

pub open spec fn spec_imperative(v: Seq<char>, cat: VerbCategory, reading: bool) -> Seq<char> {
    apply_rule(v, imperative_rule(cat, reading))
}

fn imperative(verb: &str, category: VerbCategory, reading: bool) -> (r: String)
    requires
        rule_fits(verb@, imperative_rule(category, reading)),
    ensures
        r@ == spec_imperative(verb@, category, reading),
{
    match category {
        VerbCategory::V1 => strip_append(verb, 1, "ろ"),
        VerbCategory::V1S => strip_append(verb, 0, ""),
        VerbCategory::V5Aru => strip_append(verb, 1, "い"),
        VerbCategory::V5B => strip_append(verb, 1, "べ"),
        VerbCategory::V5G => strip_append(verb, 1, "げ"),
        VerbCategory::V5K | VerbCategory::V5KS => strip_append(verb, 1, "け"),
        VerbCategory::V5M => strip_append(verb, 1, "め"),
        VerbCategory::V5N => strip_append(verb, 1, "ね"),
        VerbCategory::V5R | VerbCategory::V5RI => strip_append(verb, 1, "れ"),
        VerbCategory::V5S => strip_append(verb, 1, "せ"),
        VerbCategory::V5T => strip_append(verb, 1, "て"),
        VerbCategory::V5U | VerbCategory::V5US => strip_append(verb, 1, "え"),
        VerbCategory::Vk => if reading {
            strip_append(verb, 2, "こい")
        } else {
            strip_append(verb, 1, "い")
        },
        VerbCategory::VsI | VerbCategory::VsS => strip_append(verb, 2, "しろ"),
        VerbCategory::Vz => strip_append(verb, 2, "じろ"),
    }
}

/// The rule of the passive, per category.
pub open spec fn passive_rule(cat: VerbCategory, reading: bool) -> (Seq<char>, int) {
    match cat {
        VerbCategory::V1
        | VerbCategory::V1S
        | VerbCategory::V5Aru
        | VerbCategory::V5R
        | VerbCategory::V5RI => ("られる"@, 1),
        VerbCategory::V5B => ("ばれる"@, 1),
        VerbCategory::V5G => ("がれる"@, 1),
        VerbCategory::V5K | VerbCategory::V5KS => ("かれる"@, 1),
        VerbCategory::V5M => ("まれる"@, 1),
        VerbCategory::V5N => ("なれる"@, 1),
        VerbCategory::V5S => ("される"@, 1),
        VerbCategory::V5T => ("たれる"@, 1),
        VerbCategory::V5U | VerbCategory::V5US => ("われる"@, 1),
        VerbCategory::Vk => if reading { ("きれる"@, 2) } else { ("れる"@, 1) },
        VerbCategory::VsI | VerbCategory::VsS => ("される"@, 2),
        VerbCategory::Vz => ("じられる"@, 2),
    }
}

pub open spec fn spec_passive(v: Seq<char>, cat: VerbCategory, reading: bool) -> Seq<char> {
    apply_rule(v, passive_rule(cat, reading))
}

fn passive(verb: &str, category: VerbCategory, reading: bool) -> (r: String)
    requires
        rule_fits(verb@, passive_rule(category, reading)),
    ensures
        r@ == spec_passive(verb@, category, reading),
{
    match category {
        VerbCategory::V1
        | VerbCategory::V1S
        | VerbCategory::V5Aru
        | VerbCategory::V5R
        | VerbCategory::V5RI => strip_append(verb, 1, "られる"),
        VerbCategory::V5B => strip_append(verb, 1, "ばれる"),
        VerbCategory::V5G => strip_append(verb, 1, "がれる"),
        VerbCategory::V5K | VerbCategory::V5KS => strip_append(verb, 1, "かれる"),
        VerbCategory::V5M => strip_append(verb, 1, "まれる"),
        VerbCategory::V5N => strip_append(verb, 1, "なれる"),
        VerbCategory::V5S => strip_append(verb, 1, "される"),
        VerbCategory::V5T => strip_append(verb, 1, "たれる"),
        VerbCategory::V5U | VerbCategory::V5US => strip_append(verb, 1, "われる"),
        VerbCategory::Vk => if reading {
            strip_append(verb, 2, "きれる")
        } else {
            strip_append(verb, 1, "れる")
        },
        VerbCategory::VsI | VerbCategory::VsS => strip_append(verb, 2, "される"),
        VerbCategory::Vz => strip_append(verb, 2, "じられる"),
    }
}

/// The rule of the potential, per category.
pub open spec fn potential_rule(cat: VerbCategory, reading: bool) -> (Seq<char>, int) {
    match cat {
        VerbCategory::V1 | VerbCategory::V1S => ("られる"@, 1),
        VerbCategory::V5Aru => ("り得る"@, 1),
        VerbCategory::V5B => ("べる"@, 1),
        VerbCategory::V5G => ("げる"@, 1),
        VerbCategory::V5K | VerbCategory::V5KS => ("ける"@, 1),
        VerbCategory::V5M => ("める"@, 1),
        VerbCategory::V5N => ("ねる"@, 1),
        VerbCategory::V5R => ("れる"@, 1),
        VerbCategory::V5RI => ("りえる"@, 1),
        VerbCategory::V5S => ("せる"@, 1),
        VerbCategory::V5T => ("てる"@, 1),
        VerbCategory::V5U | VerbCategory::V5US => ("える"@, 1),
        VerbCategory::Vk => if reading { ("こられる"@, 2) } else { ("られる"@, 1) },
        VerbCategory::VsI | VerbCategory::VsS => ("できる"@, 2),
        VerbCategory::Vz => ("じられる"@, 2),
    }
}

pub open spec fn spec_potential(v: Seq<char>, cat: VerbCategory, reading: bool) -> Seq<char> {
    apply_rule(v, potential_rule(cat, reading))
}

fn potential(verb: &str, category: VerbCategory, reading: bool) -> (r: String)
    requires
        rule_fits(verb@, potential_rule(category, reading)),
    ensures
        r@ == spec_potential(verb@, category, reading),
{
    match category {
        VerbCategory::V1 | VerbCategory::V1S => strip_append(verb, 1, "られる"),
        VerbCategory::V5Aru => strip_append(verb, 1, "り得る"),
        VerbCategory::V5B => strip_append(verb, 1, "べる"),
        VerbCategory::V5G => strip_append(verb, 1, "げる"),
        VerbCategory::V5K | VerbCategory::V5KS => strip_append(verb, 1, "ける"),
        VerbCategory::V5M => strip_append(verb, 1, "める"),
        VerbCategory::V5N => strip_append(verb, 1, "ねる"),
        VerbCategory::V5R => strip_append(verb, 1, "れる"),
        VerbCategory::V5RI => strip_append(verb, 1, "りえる"),
        VerbCategory::V5S => strip_append(verb, 1, "せる"),
        VerbCategory::V5T => strip_append(verb, 1, "てる"),
        VerbCategory::V5U | VerbCategory::V5US => strip_append(verb, 1, "える"),
        VerbCategory::Vk => if reading {
            strip_append(verb, 2, "こられる")
        } else {
            strip_append(verb, 1, "られる")
        },
        VerbCategory::VsI | VerbCategory::VsS => strip_append(verb, 2, "できる"),
        VerbCategory::Vz => strip_append(verb, 2, "じられる"),
    }
}

/// The rule of the provisional conditional, per category.
pub open spec fn provisional_conditional_rule(cat: VerbCategory, reading: bool) -> (Seq<char>, int) {
    match cat {
        VerbCategory::V1
        | VerbCategory::V1S
        | VerbCategory::V5Aru
        | VerbCategory::V5R
        | VerbCategory::V5RI
        | VerbCategory::VsI
        | VerbCategory::VsS
        | VerbCategory::Vz
        | VerbCategory::Vk => ("れば"@, 1),
        VerbCategory::V5B => ("べば"@, 1),
        VerbCategory::V5G => ("げば"@, 1),
        VerbCategory::V5K | VerbCategory::V5KS => ("けば"@, 1),
        VerbCategory::V5M => ("めば"@, 1),
        VerbCategory::V5N => ("ねば"@, 1),
        VerbCategory::V5S => ("せば"@, 1),
        VerbCategory::V5T => ("てば"@, 1),
        VerbCategory::V5U | VerbCategory::V5US => ("えば"@, 1),
    }
}

pub open spec fn spec_provisional_conditional(
    v: Seq<char>,
    cat: VerbCategory,
    reading: bool,
) -> Seq<char> {
    apply_rule(v, provisional_conditional_rule(cat, reading))
}

fn provisional_conditional(verb: &str, category: VerbCategory, reading: bool) -> (r: String)
    requires
        rule_fits(verb@, provisional_conditional_rule(category, reading)),
    ensures
        r@ == spec_provisional_conditional(verb@, category, reading),
{
    match category {
        VerbCategory::V1
        | VerbCategory::V1S
        | VerbCategory::V5Aru
        | VerbCategory::V5R
        | VerbCategory::V5RI
        | VerbCategory::VsI
        | VerbCategory::VsS
        | VerbCategory::Vz
        | VerbCategory::Vk => strip_append(verb, 1, "れば"),
        VerbCategory::V5B => strip_append(verb, 1, "べば"),
        VerbCategory::V5G => strip_append(verb, 1, "げば"),
        VerbCategory::V5K | VerbCategory::V5KS => strip_append(verb, 1, "けば"),
        VerbCategory::V5M => strip_append(verb, 1, "めば"),
        VerbCategory::V5N => strip_append(verb, 1, "ねば"),
        VerbCategory::V5S => strip_append(verb, 1, "せば"),
        VerbCategory::V5T => strip_append(verb, 1, "てば"),
        VerbCategory::V5U | VerbCategory::V5US => strip_append(verb, 1, "えば"),
    }
}

/// The rule of the volitional, per category.
pub open spec fn volitional_rule(cat: VerbCategory, reading: bool) -> (Seq<char>, int) {
    match cat {
        VerbCategory::V1 | VerbCategory::V1S => ("よう"@, 1),
        VerbCategory::V5Aru | VerbCategory::V5R | VerbCategory::V5RI => ("ろう"@, 1),
        VerbCategory::V5B => ("ぼう"@, 1),
        VerbCategory::V5G => ("ごう"@, 1),
        VerbCategory::V5K | VerbCategory::V5KS => ("こう"@, 1),
        VerbCategory::V5M => ("もう"@, 1),
        VerbCategory::V5N => ("のう"@, 1),
        VerbCategory::V5S => ("そう"@, 1),
        VerbCategory::V5T => ("とう"@, 1),
        VerbCategory::V5U | VerbCategory::V5US => ("おう"@, 1),
        VerbCategory::Vk => if reading { ("こよう"@, 2) } else { ("よう"@, 1) },
        VerbCategory::VsI | VerbCategory::VsS => ("しよう"@, 2),
        VerbCategory::Vz => ("じよう"@, 2),
    }
}

pub open spec fn spec_volitional(v: Seq<char>, cat: VerbCategory, reading: bool) -> Seq<char> {
    apply_rule(v, volitional_rule(cat, reading))
}

fn volitional(verb: &str, category: VerbCategory, reading: bool) -> (r: String)
    requires
        rule_fits(verb@, volitional_rule(category, reading)),
    ensures
        r@ == spec_volitional(verb@, category, reading),
{
    match category {
        VerbCategory::V1 | VerbCategory::V1S => strip_append(verb, 1, "よう"),
        VerbCategory::V5Aru | VerbCategory::V5R | VerbCategory::V5RI => strip_append(verb, 1, "ろう"),
        VerbCategory::V5B => strip_append(verb, 1, "ぼう"),
        VerbCategory::V5G => strip_append(verb, 1, "ごう"),
        VerbCategory::V5K | VerbCategory::V5KS => strip_append(verb, 1, "こう"),
        VerbCategory::V5M => strip_append(verb, 1, "もう"),
        VerbCategory::V5N => strip_append(verb, 1, "のう"),
        VerbCategory::V5S => strip_append(verb, 1, "そう"),
        VerbCategory::V5T => strip_append(verb, 1, "とう"),
        VerbCategory::V5U | VerbCategory::V5US => strip_append(verb, 1, "おう"),
        VerbCategory::Vk => if reading {
            strip_append(verb, 2, "こよう")
        } else {
            strip_append(verb, 1, "よう")
        },
        VerbCategory::VsI | VerbCategory::VsS => strip_append(verb, 2, "しよう"),
        VerbCategory::Vz => strip_append(verb, 2, "じよう"),
    }
}

/// The rule of the plain past, per category.
pub open spec fn past_rule(cat: VerbCategory, reading: bool) -> (Seq<char>, int) {
    match cat {
        VerbCategory::V1 | VerbCategory::V1S => ("た"@, 1),
        VerbCategory::V5Aru
        | VerbCategory::V5KS
        | VerbCategory::V5R
        | VerbCategory::V5RI
        | VerbCategory::V5T
        | VerbCategory::V5U => ("った"@, 1),
        VerbCategory::V5B | VerbCategory::V5M | VerbCategory::V5N => ("んだ"@, 1),
        VerbCategory::V5G => ("いだ"@, 1),
        VerbCategory::V5K => ("いた"@, 1),
        VerbCategory::V5S => ("した"@, 1),
        VerbCategory::V5US => ("うた"@, 1),
        VerbCategory::Vk => if reading { ("きた"@, 2) } else { ("た"@, 1) },
        VerbCategory::VsI | VerbCategory::VsS => ("した"@, 2),
        VerbCategory::Vz => ("じた"@, 2),
    }
}

pub open spec fn spec_past(v: Seq<char>, cat: VerbCategory, reading: bool) -> Seq<char> {
    apply_rule(v, past_rule(cat, reading))
}

fn past(verb: &str, category: VerbCategory, reading: bool) -> (r: String)
    requires
        rule_fits(verb@, past_rule(category, reading)),
    ensures
        r@ == spec_past(verb@, category, reading),
{
    match category {
        VerbCategory::V1 | VerbCategory::V1S => strip_append(verb, 1, "た"),
        VerbCategory::V5Aru
        | VerbCategory::V5KS
        | VerbCategory::V5R
        | VerbCategory::V5RI
        | VerbCategory::V5T
        | VerbCategory::V5U => strip_append(verb, 1, "った"),
        VerbCategory::V5B | VerbCategory::V5M | VerbCategory::V5N => strip_append(verb, 1, "んだ"),
        VerbCategory::V5G => strip_append(verb, 1, "いだ"),
        VerbCategory::V5K => strip_append(verb, 1, "いた"),
        VerbCategory::V5S => strip_append(verb, 1, "した"),
        VerbCategory::V5US => strip_append(verb, 1, "うた"),
        VerbCategory::Vk => if reading {
            strip_append(verb, 2, "きた")
        } else {
            strip_append(verb, 1, "た")
        },
        VerbCategory::VsI | VerbCategory::VsS => strip_append(verb, 2, "した"),
        VerbCategory::Vz => strip_append(verb, 2, "じた"),
    }
}

/// The rule of the te form, per category.
pub open spec fn te_form_rule(cat: VerbCategory, reading: bool) -> (Seq<char>, int) {
    match cat {
        VerbCategory::V1 | VerbCategory::V1S => ("て"@, 1),
        VerbCategory::V5Aru
        | VerbCategory::V5KS
        | VerbCategory::V5R
        | VerbCategory::V5RI
        | VerbCategory::V5T
        | VerbCategory::V5U => ("って"@, 1),
        VerbCategory::V5B | VerbCategory::V5M | VerbCategory::V5N => ("んで"@, 1),
        VerbCategory::V5G => ("いで"@, 1),
        VerbCategory::V5K => ("いて"@, 1),
        VerbCategory::V5S => ("して"@, 1),
        VerbCategory::V5US => ("うて"@, 1),
        VerbCategory::Vk => if reading { ("きて"@, 2) } else { ("て"@, 1) },
        VerbCategory::VsI | VerbCategory::VsS => ("して"@, 2),
        VerbCategory::Vz => ("じて"@, 2),
    }
}

pub open spec fn spec_te_form(v: Seq<char>, cat: VerbCategory, reading: bool) -> Seq<char> {
    apply_rule(v, te_form_rule(cat, reading))
}

fn te_form(verb: &str, category: VerbCategory, reading: bool) -> (r: String)
    requires
        rule_fits(verb@, te_form_rule(category, reading)),
    ensures
        r@ == spec_te_form(verb@, category, reading),
{
    match category {
        VerbCategory::V1 | VerbCategory::V1S => strip_append(verb, 1, "て"),
        VerbCategory::V5Aru
        | VerbCategory::V5KS
        | VerbCategory::V5R
        | VerbCategory::V5RI
        | VerbCategory::V5T
        | VerbCategory::V5U => strip_append(verb, 1, "って"),
        VerbCategory::V5B | VerbCategory::V5M | VerbCategory::V5N => strip_append(verb, 1, "んで"),
        VerbCategory::V5G => strip_append(verb, 1, "いで"),
        VerbCategory::V5K => strip_append(verb, 1, "いて"),
        VerbCategory::V5S => strip_append(verb, 1, "して"),
        VerbCategory::V5US => strip_append(verb, 1, "うて"),
        VerbCategory::Vk => if reading {
            strip_append(verb, 2, "きて")
        } else {
            strip_append(verb, 1, "て")
        },
        VerbCategory::VsI | VerbCategory::VsS => strip_append(verb, 2, "して"),
        VerbCategory::Vz => strip_append(verb, 2, "じて"),
    }
}

/// The rule of the polite imperative, per category.
pub open spec fn polite_imperative_rule(cat: VerbCategory) -> (Seq<char>, int) {
    match cat {
        VerbCategory::V1
        | VerbCategory::V1S
        | VerbCategory::V5Aru
        | VerbCategory::V5R
        | VerbCategory::V5RI => ("られます"@, 1),
        VerbCategory::V5B => ("ばれます"@, 1),
        VerbCategory::V5G => ("がれます"@, 1),
        VerbCategory::V5K | VerbCategory::V5KS => ("かれます"@, 1),
        VerbCategory::V5M => ("まれます"@, 1),
        VerbCategory::V5N => ("なれます"@, 1),
        VerbCategory::V5S => ("されます"@, 1),
        VerbCategory::V5T => ("たれます"@, 1),
        VerbCategory::V5U | VerbCategory::V5US => ("われます"@, 1),
        VerbCategory::Vk => ("きられます"@, 2),
        VerbCategory::VsI | VerbCategory::VsS => ("されます"@, 2),
        VerbCategory::Vz => ("じられます"@, 2),
    }
}

pub open spec fn spec_polite_imperative(v: Seq<char>, cat: VerbCategory) -> Seq<char> {
    apply_rule(v, polite_imperative_rule(cat))
}

pub fn polite_imperative(verb: &str, category: VerbCategory) -> (r: String)
    requires
        category != VerbCategory::VsS,
        rule_fits(verb@, polite_imperative_rule(category)),
    ensures
        r@ == spec_polite_imperative(verb@, category),
{
    match category {
        VerbCategory::V1
        | VerbCategory::V1S
        | VerbCategory::V5Aru
        | VerbCategory::V5R
        | VerbCategory::V5RI => strip_append(verb, 1, "られます"),
        VerbCategory::V5B => strip_append(verb, 1, "ばれます"),
        VerbCategory::V5G => strip_append(verb, 1, "がれます"),
        VerbCategory::V5K | VerbCategory::V5KS => strip_append(verb, 1, "かれます"),
        VerbCategory::V5M => strip_append(verb, 1, "まれます"),
        VerbCategory::V5N => strip_append(verb, 1, "なれます"),
        VerbCategory::V5S => strip_append(verb, 1, "されます"),
        VerbCategory::V5T => strip_append(verb, 1, "たれます"),
        VerbCategory::V5U | VerbCategory::V5US => strip_append(verb, 1, "われます"),
        VerbCategory::Vk => strip_append(verb, 2, "きられます"),
        VerbCategory::VsI | VerbCategory::VsS => strip_append(verb, 2, "されます"),
        VerbCategory::Vz => strip_append(verb, 2, "じられます"),
    }
}

/// Every causative suffix has at least three characters, every passive,
/// potential and negative suffix at least two; the desire ending has two.
/// Compound forms strip one character from such an intermediate, so these
/// bounds show the strips stay inside the intermediate string.
proof fn lemma_rule_suffix_lengths(cat: VerbCategory, reading: bool)
    ensures
        causative_rule(cat, reading).0.len() >= 3,
        passive_rule(cat, reading).0.len() >= 2,
        potential_rule(cat, reading).0.len() >= 2,
        negative_rule(cat, reading).0.len() >= 2,
        "たい"@.len() == 2,
{
    reveal_strlit("させる");
    reveal_strlit("らせる");
    reveal_strlit("ばせる");
    reveal_strlit("がせる");
    reveal_strlit("かせる");
    reveal_strlit("ませる");
    reveal_strlit("なせる");
    reveal_strlit("たせる");
    reveal_strlit("わせる");
    reveal_strlit("こさせる");
    reveal_strlit("じさせる");
    reveal_strlit("られる");
    reveal_strlit("ばれる");
    reveal_strlit("がれる");
    reveal_strlit("かれる");
    reveal_strlit("まれる");
    reveal_strlit("なれる");
    reveal_strlit("される");
    reveal_strlit("たれる");
    reveal_strlit("われる");
    reveal_strlit("きれる");
    reveal_strlit("れる");
    reveal_strlit("じられる");
    reveal_strlit("り得る");
    reveal_strlit("べる");
    reveal_strlit("げる");
    reveal_strlit("ける");
    reveal_strlit("める");
    reveal_strlit("ねる");
    reveal_strlit("りえる");
    reveal_strlit("せる");
    reveal_strlit("てる");
    reveal_strlit("える");
    reveal_strlit("こられる");
    reveal_strlit("できる");
    reveal_strlit("ない");
    reveal_strlit("ばない");
    reveal_strlit("がない");
    reveal_strlit("かない");
    reveal_strlit("まない");
    reveal_strlit("なない");
    reveal_strlit("らない");
    reveal_strlit("さない");
    reveal_strlit("たない");
    reveal_strlit("わない");
    reveal_strlit("こない");
    reveal_strlit("しない");
    reveal_strlit("じない");
    reveal_strlit("たい");
}

pub open spec fn spec_causative_passive(v: Seq<char>, cat: VerbCategory, reading: bool) -> Seq<
    char,
> {
    apply_rule(spec_causative(v, cat, reading), ("られる"@, 1))
}

fn causative_passive(verb: &str, category: VerbCategory, reading: bool) -> (r: String)
    requires
        rule_fits(verb@, causative_rule(category, reading)),
    ensures
        r@ == spec_causative_passive(verb@, category, reading),
{
    let base = causative(verb, category, reading);
    proof {
        lemma_rule_suffix_lengths(category, reading);
    }
    strip_append(base.as_str(), 1, "られる")
}

pub open spec fn spec_causative_short(v: Seq<char>, cat: VerbCategory, reading: bool) -> Seq<
    char,
> {
    apply_rule(spec_causative(v, cat, reading), ("す"@, 2))
}

fn causative_short(verb: &str, category: VerbCategory, reading: bool) -> (r: String)
    requires
        rule_fits(verb@, causative_rule(category, reading)),
    ensures
        r@ == spec_causative_short(verb@, category, reading),
{
    let base = causative(verb, category, reading);
    proof {
        lemma_rule_suffix_lengths(category, reading);
    }
    strip_append(base.as_str(), 2, "す")
}

pub open spec fn spec_conditional(v: Seq<char>, cat: VerbCategory, reading: bool) -> Seq<char> {
    spec_past(v, cat, reading) + "ら"@
}

fn conditional(verb: &str, category: VerbCategory, reading: bool) -> (r: String)
    requires
        rule_fits(verb@, past_rule(category, reading)),
    ensures
        r@ == spec_conditional(verb@, category, reading),
{
    past(verb, category, reading).concat("ら")
}

pub open spec fn spec_desire(v: Seq<char>, cat: VerbCategory, reading: bool) -> Seq<char> {
    spec_masu_stem(v, cat, reading) + "たい"@
}

fn desire(verb: &str, category: VerbCategory, reading: bool) -> (r: String)
    requires
        rule_fits(verb@, masu_stem_rule(category, reading)),
    ensures
        r@ == spec_desire(verb@, category, reading),
{
    masu_stem(verb, category, reading).concat("たい")
}

pub open spec fn spec_causative_negative(v: Seq<char>, cat: VerbCategory, reading: bool) -> Seq<
    char,
> {
    spec_negative(spec_causative(v, cat, reading), VerbCategory::V1, reading)
}

fn causative_negative(verb: &str, category: VerbCategory, reading: bool) -> (r: String)
    requires
        rule_fits(verb@, causative_rule(category, reading)),
    ensures
        r@ == spec_causative_negative(verb@, category, reading),
{
    let base = causative(verb, category, reading);
    proof {
        lemma_rule_suffix_lengths(category, reading);
    }
    negative(base.as_str(), VerbCategory::V1, reading)
}

pub open spec fn spec_causative_passive_negative(
    v: Seq<char>,
    cat: VerbCategory,
    reading: bool,
) -> Seq<char> {
    spec_negative(spec_causative_passive(v, cat, reading), VerbCategory::V1, reading)
}

fn causative_passive_negative(verb: &str, category: VerbCategory, reading: bool) -> (r: String)
    requires
        rule_fits(verb@, causative_rule(category, reading)),
    ensures
        r@ == spec_causative_passive_negative(verb@, category, reading),
{
    let base = causative_passive(verb, category, reading);
    proof {
        lemma_rule_suffix_lengths(category, reading);
        reveal_strlit("られる");
    }
    negative(base.as_str(), VerbCategory::V1, reading)
}

pub open spec fn spec_past_negative(v: Seq<char>, cat: VerbCategory, reading: bool) -> Seq<char> {
    apply_rule(spec_negative(v, cat, reading), ("かった"@, 1))
}

fn past_negative(verb: &str, category: VerbCategory, reading: bool) -> (r: String)
    requires
        rule_fits(verb@, negative_rule(category, reading)),
    ensures
        r@ == spec_past_negative(verb@, category, reading),
{
    let base = negative(verb, category, reading);
    proof {
        lemma_rule_suffix_lengths(category, reading);
    }
    strip_append(base.as_str(), 1, "かった")
}

pub open spec fn spec_conditional_negative(v: Seq<char>, cat: VerbCategory, reading: bool) -> Seq<
    char,
> {
    spec_past_negative(v, cat, reading) + "ら"@
}

fn conditional_negative(verb: &str, category: VerbCategory, reading: bool) -> (r: String)
    requires
        rule_fits(verb@, negative_rule(category, reading)),
    ensures
        r@ == spec_conditional_negative(verb@, category, reading),
{
    past_negative(verb, category, reading).concat("ら")
}

pub open spec fn spec_desire_negative(v: Seq<char>, cat: VerbCategory, reading: bool) -> Seq<
    char,
> {
    apply_rule(spec_desire(v, cat, reading), ("くない"@, 1))
}

fn desire_negative(verb: &str, category: VerbCategory, reading: bool) -> (r: String)
    requires
        rule_fits(verb@, masu_stem_rule(category, reading)),
    ensures
        r@ == spec_desire_negative(verb@, category, reading),
{
    let base = desire(verb, category, reading);
    proof {
        lemma_rule_suffix_lengths(category, reading);
    }
    strip_append(base.as_str(), 1, "くない")
}

pub open spec fn spec_imperative_negative(v: Seq<char>, cat: VerbCategory, reading: bool) -> Seq<
    char,
> {
    spec_imperative(v, cat, reading) + "な"@
}

fn imperative_negative(verb: &str, category: VerbCategory, reading: bool) -> (r: String)
    requires
        rule_fits(verb@, imperative_rule(category, reading)),
    ensures
        r@ == spec_imperative_negative(verb@, category, reading),
{
    imperative(verb, category, reading).concat("な")
}

pub open spec fn spec_passive_negative(v: Seq<char>, cat: VerbCategory, reading: bool) -> Seq<
    char,
> {
    spec_negative(spec_passive(v, cat, reading), VerbCategory::V1, reading)
}

fn passive_negative(verb: &str, category: VerbCategory, reading: bool) -> (r: String)
    requires
        rule_fits(verb@, passive_rule(category, reading)),
    ensures
        r@ == spec_passive_negative(verb@, category, reading),
{
    let base = passive(verb, category, reading);
    proof {
        lemma_rule_suffix_lengths(category, reading);
    }
    negative(base.as_str(), VerbCategory::V1, reading)
}

pub open spec fn spec_potential_negative(v: Seq<char>, cat: VerbCategory, reading: bool) -> Seq<
    char,
> {
    spec_negative(spec_potential(v, cat, reading), VerbCategory::V1, reading)
}

fn potential_negative(verb: &str, category: VerbCategory, reading: bool) -> (r: String)
    requires
        rule_fits(verb@, potential_rule(category, reading)),
    ensures
        r@ == spec_potential_negative(verb@, category, reading),
{
    let base = potential(verb, category, reading);
    proof {
        lemma_rule_suffix_lengths(category, reading);
    }
    negative(base.as_str(), VerbCategory::V1, reading)
}

pub open spec fn spec_causative_past(v: Seq<char>, cat: VerbCategory, reading: bool) -> Seq<
    char,
> {
    spec_past(spec_causative(v, cat, reading), VerbCategory::V1, reading)
}

fn causative_past(verb: &str, category: VerbCategory, reading: bool) -> (r: String)
    requires
        rule_fits(verb@, causative_rule(category, reading)),
    ensures
        r@ == spec_causative_past(verb@, category, reading),
{
    let base = causative(verb, category, reading);
    proof {
        lemma_rule_suffix_lengths(category, reading);
    }
    past(base.as_str(), VerbCategory::V1, reading)
}

pub open spec fn spec_causative_passive_past(
    v: Seq<char>,
    cat: VerbCategory,
    reading: bool,
) -> Seq<char> {
    spec_past(spec_causative_passive(v, cat, reading), VerbCategory::V1, reading)
}

fn causative_passive_past(verb: &str, category: VerbCategory, reading: bool) -> (r: String)
    requires
        rule_fits(verb@, causative_rule(category, reading)),
    ensures
        r@ == spec_causative_passive_past(verb@, category, reading),
{
    let base = causative_passive(verb, category, reading);
    proof {
        lemma_rule_suffix_lengths(category, reading);
        reveal_strlit("られる");
    }
    past(base.as_str(), VerbCategory::V1, reading)
}

pub open spec fn spec_desire_past(v: Seq<char>, cat: VerbCategory, reading: bool) -> Seq<char> {
    apply_rule(spec_desire(v, cat, reading), ("かった"@, 1))
}

fn desire_past(verb: &str, category: VerbCategory, reading: bool) -> (r: String)
    requires
        rule_fits(verb@, masu_stem_rule(category, reading)),
    ensures
        r@ == spec_desire_past(verb@, category, reading),
{
    let base = desire(verb, category, reading);
    proof {
        lemma_rule_suffix_lengths(category, reading);
    }
    strip_append(base.as_str(), 1, "かった")
}

pub open spec fn spec_passive_past(v: Seq<char>, cat: VerbCategory, reading: bool) -> Seq<char> {
    spec_past(spec_passive(v, cat, reading), VerbCategory::V1, reading)
}

fn passive_past(verb: &str, category: VerbCategory, reading: bool) -> (r: String)
    requires
        rule_fits(verb@, passive_rule(category, reading)),
    ensures
        r@ == spec_passive_past(verb@, category, reading),
{
    let base = passive(verb, category, reading);
    proof {
        lemma_rule_suffix_lengths(category, reading);
    }
    past(base.as_str(), VerbCategory::V1, reading)
}

pub open spec fn spec_potential_past(v: Seq<char>, cat: VerbCategory, reading: bool) -> Seq<
    char,
> {
    spec_past(spec_potential(v, cat, reading), VerbCategory::V1, reading)
}

fn potential_past(verb: &str, category: VerbCategory, reading: bool) -> (r: String)
    requires
        rule_fits(verb@, potential_rule(category, reading)),
    ensures
        r@ == spec_potential_past(verb@, category, reading),
{
    let base = potential(verb, category, reading);
    proof {
        lemma_rule_suffix_lengths(category, reading);
    }
    past(base.as_str(), VerbCategory::V1, reading)
}

pub open spec fn spec_causative_past_negative(
    v: Seq<char>,
    cat: VerbCategory,
    reading: bool,
) -> Seq<char> {
    spec_past_negative(spec_causative(v, cat, reading), VerbCategory::V1, reading)
}

fn causative_past_negative(verb: &str, category: VerbCategory, reading: bool) -> (r: String)
    requires
        rule_fits(verb@, causative_rule(category, reading)),
    ensures
        r@ == spec_causative_past_negative(verb@, category, reading),
{
    let base = causative(verb, category, reading);
    proof {
        lemma_rule_suffix_lengths(category, reading);
    }
    past_negative(base.as_str(), VerbCategory::V1, reading)
}

pub open spec fn spec_causative_passive_past_negative(
    v: Seq<char>,
    cat: VerbCategory,
    reading: bool,
) -> Seq<char> {
    spec_past_negative(spec_causative_passive(v, cat, reading), VerbCategory::V1, reading)
}

fn causative_passive_past_negative(verb: &str, category: VerbCategory, reading: bool) -> (r:
    String)
    requires
        rule_fits(verb@, causative_rule(category, reading)),
    ensures
        r@ == spec_causative_passive_past_negative(verb@, category, reading),
{
    let base = causative_passive(verb, category, reading);
    proof {
        lemma_rule_suffix_lengths(category, reading);
        reveal_strlit("られる");
    }
    past_negative(base.as_str(), VerbCategory::V1, reading)
}

pub open spec fn spec_desire_past_negative(v: Seq<char>, cat: VerbCategory, reading: bool) -> Seq<
    char,
> {
    apply_rule(spec_desire(v, cat, reading), ("くなかった"@, 1))
}

fn desire_past_negative(verb: &str, category: VerbCategory, reading: bool) -> (r: String)
    requires
        rule_fits(verb@, masu_stem_rule(category, reading)),
    ensures
        r@ == spec_desire_past_negative(verb@, category, reading),
{
    let base = desire(verb, category, reading);
    proof {
        lemma_rule_suffix_lengths(category, reading);
    }
    strip_append(base.as_str(), 1, "くなかった")
}

pub open spec fn spec_passive_past_negative(
    v: Seq<char>,
    cat: VerbCategory,
    reading: bool,
) -> Seq<char> {
    spec_past_negative(spec_passive(v, cat, reading), VerbCategory::V1, reading)
}

fn passive_past_negative(verb: &str, category: VerbCategory, reading: bool) -> (r: String)
    requires
        rule_fits(verb@, passive_rule(category, reading)),
    ensures
        r@ == spec_passive_past_negative(verb@, category, reading),
{
    let base = passive(verb, category, reading);
    proof {
        lemma_rule_suffix_lengths(category, reading);
    }
    past_negative(base.as_str(), VerbCategory::V1, reading)
}

pub open spec fn spec_potential_past_negative(
    v: Seq<char>,
    cat: VerbCategory,
    reading: bool,
) -> Seq<char> {
    spec_past_negative(spec_potential(v, cat, reading), VerbCategory::V1, reading)
}

fn potential_past_negative(verb: &str, category: VerbCategory, reading: bool) -> (r: String)
    requires
        rule_fits(verb@, potential_rule(category, reading)),
    ensures
        r@ == spec_potential_past_negative(verb@, category, reading),
{
    let base = potential(verb, category, reading);
    proof {
        lemma_rule_suffix_lengths(category, reading);
    }
    past_negative(base.as_str(), VerbCategory::V1, reading)
}

pub open spec fn spec_causative_te(v: Seq<char>, cat: VerbCategory, reading: bool) -> Seq<char> {
    spec_te_form(spec_causative(v, cat, reading), VerbCategory::V1, reading)
}

fn causative_te(verb: &str, category: VerbCategory, reading: bool) -> (r: String)
    requires
        rule_fits(verb@, causative_rule(category, reading)),
    ensures
        r@ == spec_causative_te(verb@, category, reading),
{
    let base = causative(verb, category, reading);
    proof {
        lemma_rule_suffix_lengths(category, reading);
    }
    te_form(base.as_str(), VerbCategory::V1, reading)
}

pub open spec fn spec_causative_passive_te(
    v: Seq<char>,
    cat: VerbCategory,
    reading: bool,
) -> Seq<char> {
    spec_te_form(spec_causative_passive(v, cat, reading), VerbCategory::V1, reading)
}

fn causative_passive_te(verb: &str, category: VerbCategory, reading: bool) -> (r: String)
    requires
        rule_fits(verb@, causative_rule(category, reading)),
    ensures
        r@ == spec_causative_passive_te(verb@, category, reading),
{
    let base = causative_passive(verb, category, reading);
    proof {
        lemma_rule_suffix_lengths(category, reading);
        reveal_strlit("られる");
    }
    te_form(base.as_str(), VerbCategory::V1, reading)
}

pub open spec fn spec_passive_te(v: Seq<char>, cat: VerbCategory, reading: bool) -> Seq<char> {
    spec_te_form(spec_passive(v, cat, reading), VerbCategory::V1, reading)
}

fn passive_te(verb: &str, category: VerbCategory, reading: bool) -> (r: String)
    requires
        rule_fits(verb@, passive_rule(category, reading)),
    ensures
        r@ == spec_passive_te(verb@, category, reading),
{
    let base = passive(verb, category, reading);
    proof {
        lemma_rule_suffix_lengths(category, reading);
    }
    te_form(base.as_str(), VerbCategory::V1, reading)
}

pub open spec fn spec_potential_te(v: Seq<char>, cat: VerbCategory, reading: bool) -> Seq<char> {
    spec_te_form(spec_potential(v, cat, reading), VerbCategory::V1, reading)
}

fn potential_te(verb: &str, category: VerbCategory, reading: bool) -> (r: String)
    requires
        rule_fits(verb@, potential_rule(category, reading)),
    ensures
        r@ == spec_potential_te(verb@, category, reading),
{
    let base = potential(verb, category, reading);
    proof {
        lemma_rule_suffix_lengths(category, reading);
    }
    te_form(base.as_str(), VerbCategory::V1, reading)
}

pub open spec fn spec_polite(v: Seq<char>, cat: VerbCategory, reading: bool) -> Seq<char> {
    spec_masu_stem(v, cat, reading) + "ます"@
}

fn polite(verb: &str, category: VerbCategory, reading: bool) -> (r: String)
    requires
        rule_fits(verb@, masu_stem_rule(category, reading)),
    ensures
        r@ == spec_polite(verb@, category, reading),
{
    masu_stem(verb, category, reading).concat("ます")
}

pub open spec fn spec_causative_polite(v: Seq<char>, cat: VerbCategory, reading: bool) -> Seq<
    char,
> {
    apply_rule(spec_causative(v, cat, reading), ("ます"@, 1))
}

fn causative_polite(verb: &str, category: VerbCategory, reading: bool) -> (r: String)
    requires
        rule_fits(verb@, causative_rule(category, reading)),
    ensures
        r@ == spec_causative_polite(verb@, category, reading),
{
    let base = causative(verb, category, reading);
    proof {
        lemma_rule_suffix_lengths(category, reading);
    }
    strip_append(base.as_str(), 1, "ます")
}

pub open spec fn spec_causative_passive_polite(
    v: Seq<char>,
    cat: VerbCategory,
    reading: bool,
) -> Seq<char> {
    apply_rule(spec_causative_passive(v, cat, reading), ("ます"@, 1))
}

fn causative_passive_polite(verb: &str, category: VerbCategory, reading: bool) -> (r: String)
    requires
        rule_fits(verb@, causative_rule(category, reading)),
    ensures
        r@ == spec_causative_passive_polite(verb@, category, reading),
{
    let base = causative_passive(verb, category, reading);
    proof {
        lemma_rule_suffix_lengths(category, reading);
        reveal_strlit("られる");
    }
    strip_append(base.as_str(), 1, "ます")
}

pub open spec fn spec_passive_polite(v: Seq<char>, cat: VerbCategory, reading: bool) -> Seq<
    char,
> {
    apply_rule(spec_passive(v, cat, reading), ("ます"@, 1))
}

fn passive_polite(verb: &str, category: VerbCategory, reading: bool) -> (r: String)
    requires
        rule_fits(verb@, passive_rule(category, reading)),
    ensures
        r@ == spec_passive_polite(verb@, category, reading),
{
    let base = passive(verb, category, reading);
    proof {
        lemma_rule_suffix_lengths(category, reading);
    }
    strip_append(base.as_str(), 1, "ます")
}

pub open spec fn spec_potential_polite(v: Seq<char>, cat: VerbCategory, reading: bool) -> Seq<
    char,
> {
    apply_rule(spec_potential(v, cat, reading), ("ます"@, 1))
}

fn potential_polite(verb: &str, category: VerbCategory, reading: bool) -> (r: String)
    requires
        rule_fits(verb@, potential_rule(category, reading)),
    ensures
        r@ == spec_potential_polite(verb@, category, reading),
{
    let base = potential(verb, category, reading);
    proof {
        lemma_rule_suffix_lengths(category, reading);
    }
    strip_append(base.as_str(), 1, "ます")
}

pub open spec fn spec_volitional_polite(v: Seq<char>, cat: VerbCategory, reading: bool) -> Seq<
    char,
> {
    spec_masu_stem(v, cat, reading) + "ましょう"@
}

fn volitional_polite(verb: &str, category: VerbCategory, reading: bool) -> (r: String)
    requires
        rule_fits(verb@, masu_stem_rule(category, reading)),
    ensures
        r@ == spec_volitional_polite(verb@, category, reading),
{
    masu_stem(verb, category, reading).concat("ましょう")
}

pub open spec fn spec_polite_negative(v: Seq<char>, cat: VerbCategory, reading: bool) -> Seq<
    char,
> {
    spec_masu_stem(v, cat, reading) + "ません"@
}

fn polite_negative(verb: &str, category: VerbCategory, reading: bool) -> (r: String)
    requires
        rule_fits(verb@, masu_stem_rule(category, reading)),
    ensures
        r@ == spec_polite_negative(verb@, category, reading),
{
    masu_stem(verb, category, reading).concat("ません")
}

pub open spec fn spec_causative_polite_negative(
    v: Seq<char>,
    cat: VerbCategory,
    reading: bool,
) -> Seq<char> {
    apply_rule(spec_causative(v, cat, reading), ("ません"@, 1))
}

fn causative_polite_negative(verb: &str, category: VerbCategory, reading: bool) -> (r: String)
    requires
        rule_fits(verb@, causative_rule(category, reading)),
    ensures
        r@ == spec_causative_polite_negative(verb@, category, reading),
{
    let base = causative(verb, category, reading);
    proof {
        lemma_rule_suffix_lengths(category, reading);
    }
    strip_append(base.as_str(), 1, "ません")
}

pub open spec fn spec_causative_passive_polite_negative(
    v: Seq<char>,
    cat: VerbCategory,
    reading: bool,
) -> Seq<char> {
    apply_rule(spec_causative_passive(v, cat, reading), ("ません"@, 1))
}

fn causative_passive_polite_negative(verb: &str, category: VerbCategory, reading: bool) -> (r:
    String)
    requires
        rule_fits(verb@, causative_rule(category, reading)),
    ensures
        r@ == spec_causative_passive_polite_negative(verb@, category, reading),
{
    let base = causative_passive(verb, category, reading);
    proof {
        lemma_rule_suffix_lengths(category, reading);
        reveal_strlit("られる");
    }
    strip_append(base.as_str(), 1, "ません")
}

pub open spec fn spec_passive_polite_negative(
    v: Seq<char>,
    cat: VerbCategory,
    reading: bool,
) -> Seq<char> {
    apply_rule(spec_passive(v, cat, reading), ("ません"@, 1))
}

fn passive_polite_negative(verb: &str, category: VerbCategory, reading: bool) -> (r: String)
    requires
        rule_fits(verb@, passive_rule(category, reading)),
    ensures
        r@ == spec_passive_polite_negative(verb@, category, reading),
{
    let base = passive(verb, category, reading);
    proof {
        lemma_rule_suffix_lengths(category, reading);
    }
    strip_append(base.as_str(), 1, "ません")
}

pub open spec fn spec_potential_polite_negative(
    v: Seq<char>,
    cat: VerbCategory,
    reading: bool,
) -> Seq<char> {
    apply_rule(spec_potential(v, cat, reading), ("ません"@, 1))
}

fn potential_polite_negative(verb: &str, category: VerbCategory, reading: bool) -> (r: String)
    requires
        rule_fits(verb@, potential_rule(category, reading)),
    ensures
        r@ == spec_potential_polite_negative(verb@, category, reading),
{
    let base = potential(verb, category, reading);
    proof {
        lemma_rule_suffix_lengths(category, reading);
    }
    strip_append(base.as_str(), 1, "ません")
}

pub open spec fn spec_polite_past(v: Seq<char>, cat: VerbCategory, reading: bool) -> Seq<char> {
    spec_masu_stem(v, cat, reading) + "ました"@
}

fn polite_past(verb: &str, category: VerbCategory, reading: bool) -> (r: String)
    requires
        rule_fits(verb@, masu_stem_rule(category, reading)),
    ensures
        r@ == spec_polite_past(verb@, category, reading),
{
    masu_stem(verb, category, reading).concat("ました")
}

pub open spec fn spec_causative_polite_past(
    v: Seq<char>,
    cat: VerbCategory,
    reading: bool,
) -> Seq<char> {
    apply_rule(spec_causative(v, cat, reading), ("ました"@, 1))
}

fn causative_polite_past(verb: &str, category: VerbCategory, reading: bool) -> (r: String)
    requires
        rule_fits(verb@, causative_rule(category, reading)),
    ensures
        r@ == spec_causative_polite_past(verb@, category, reading),
{
    let base = causative(verb, category, reading);
    proof {
        lemma_rule_suffix_lengths(category, reading);
    }
    strip_append(base.as_str(), 1, "ました")
}

pub open spec fn spec_causative_passive_polite_past(
    v: Seq<char>,
    cat: VerbCategory,
    reading: bool,
) -> Seq<char> {
    apply_rule(spec_causative_passive(v, cat, reading), ("ました"@, 1))
}

fn causative_passive_polite_past(verb: &str, category: VerbCategory, reading: bool) -> (r: String)
    requires
        rule_fits(verb@, causative_rule(category, reading)),
    ensures
        r@ == spec_causative_passive_polite_past(verb@, category, reading),
{
    let base = causative_passive(verb, category, reading);
    proof {
        lemma_rule_suffix_lengths(category, reading);
        reveal_strlit("られる");
    }
    strip_append(base.as_str(), 1, "ました")
}

pub open spec fn spec_passive_polite_past(v: Seq<char>, cat: VerbCategory, reading: bool) -> Seq<
    char,
> {
    apply_rule(spec_passive(v, cat, reading), ("ました"@, 1))
}

fn passive_polite_past(verb: &str, category: VerbCategory, reading: bool) -> (r: String)
    requires
        rule_fits(verb@, passive_rule(category, reading)),
    ensures
        r@ == spec_passive_polite_past(verb@, category, reading),
{
    let base = passive(verb, category, reading);
    proof {
        lemma_rule_suffix_lengths(category, reading);
    }
    strip_append(base.as_str(), 1, "ました")
}

pub open spec fn spec_potential_polite_past(
    v: Seq<char>,
    cat: VerbCategory,
    reading: bool,
) -> Seq<char> {
    apply_rule(spec_potential(v, cat, reading), ("ました"@, 1))
}

fn potential_polite_past(verb: &str, category: VerbCategory, reading: bool) -> (r: String)
    requires
        rule_fits(verb@, potential_rule(category, reading)),
    ensures
        r@ == spec_potential_polite_past(verb@, category, reading),
{
    let base = potential(verb, category, reading);
    proof {
        lemma_rule_suffix_lengths(category, reading);
    }
    strip_append(base.as_str(), 1, "ました")
}

pub open spec fn spec_polite_te_form(v: Seq<char>, cat: VerbCategory, reading: bool) -> Seq<
    char,
> {
    spec_masu_stem(v, cat, reading) + "まして"@
}

fn polite_te_form(verb: &str, category: VerbCategory, reading: bool) -> (r: String)
    requires
        rule_fits(verb@, masu_stem_rule(category, reading)),
    ensures
        r@ == spec_polite_te_form(verb@, category, reading),
{
    masu_stem(verb, category, reading).concat("まして")
}

/// The verb category a tag string names, if any.
pub open spec fn spec_parse_verb_tag(s: Seq<char>) -> Option<VerbCategory> {
    if s == "v1"@ {
        Some(VerbCategory::V1)
    } else if s == "v1-s"@ {
        Some(VerbCategory::V1S)
    } else if s == "v5aru"@ {
        Some(VerbCategory::V5Aru)
    } else if s == "v5b"@ {
        Some(VerbCategory::V5B)
    } else if s == "v5g"@ {
        Some(VerbCategory::V5G)
    } else if s == "v5k"@ {
        Some(VerbCategory::V5K)
    } else if s == "v5k-s"@ {
        Some(VerbCategory::V5KS)
    } else if s == "v5m"@ {
        Some(VerbCategory::V5M)
    } else if s == "v5n"@ {
        Some(VerbCategory::V5N)
    } else if s == "v5r"@ {
        Some(VerbCategory::V5R)
    } else if s == "v5r-i"@ {
        Some(VerbCategory::V5RI)
    } else if s == "v5s"@ {
        Some(VerbCategory::V5S)
    } else if s == "v5t"@ {
        Some(VerbCategory::V5T)
    } else if s == "v5u"@ {
        Some(VerbCategory::V5U)
    } else if s == "v5u-s"@ {
        Some(VerbCategory::V5US)
    } else if s == "vk"@ {
        Some(VerbCategory::Vk)
    } else if s == "vs-i"@ {
        Some(VerbCategory::VsI)
    } else if s == "vs-s"@ {
        Some(VerbCategory::VsS)
    } else if s == "vz"@ {
        Some(VerbCategory::Vz)
    } else {
        None
    }
}

pub fn parse_verb_tag(tag: &str) -> (r: Option<VerbCategory>)
    ensures
        r == spec_parse_verb_tag(tag@),
{
    if str_eq(tag, "v1") {
        Some(VerbCategory::V1)
    } else if str_eq(tag, "v1-s") {
        Some(VerbCategory::V1S)
    } else if str_eq(tag, "v5aru") {
        Some(VerbCategory::V5Aru)
    } else if str_eq(tag, "v5b") {
        Some(VerbCategory::V5B)
    } else if str_eq(tag, "v5g") {
        Some(VerbCategory::V5G)
    } else if str_eq(tag, "v5k") {
        Some(VerbCategory::V5K)
    } else if str_eq(tag, "v5k-s") {
        Some(VerbCategory::V5KS)
    } else if str_eq(tag, "v5m") {
        Some(VerbCategory::V5M)
    } else if str_eq(tag, "v5n") {
        Some(VerbCategory::V5N)
    } else if str_eq(tag, "v5r") {
        Some(VerbCategory::V5R)
    } else if str_eq(tag, "v5r-i") {
        Some(VerbCategory::V5RI)
    } else if str_eq(tag, "v5s") {
        Some(VerbCategory::V5S)
    } else if str_eq(tag, "v5t") {
        Some(VerbCategory::V5T)
    } else if str_eq(tag, "v5u") {
        Some(VerbCategory::V5U)
    } else if str_eq(tag, "v5u-s") {
        Some(VerbCategory::V5US)
    } else if str_eq(tag, "vk") {
        Some(VerbCategory::Vk)
    } else if str_eq(tag, "vs-i") {
        Some(VerbCategory::VsI)
    } else if str_eq(tag, "vs-s") {
        Some(VerbCategory::VsS)
    } else if str_eq(tag, "vz") {
        Some(VerbCategory::Vz)
    } else {
        None
    }
}

/// The views of a list of tag strings.
pub open spec fn tag_views(tags: Seq<String>) -> Seq<Seq<char>> {
    tags.map_values(|t: String| t@)
}

/// Whether some tag starts with the given letter.
pub open spec fn any_starts_with(tags: Seq<Seq<char>>, c: char) -> bool {
    exists|i: int| 0 <= i < tags.len() && tags[i].len() > 0 && tags[i][0] == c
}

pub fn any_tag_starts_with(tags: &Vec<String>, c: char) -> (r: bool)
    ensures
        r == any_starts_with(tag_views(tags@), c),
{
    let mut i: usize = 0;
    while i < tags.len()
        invariant
            0 <= i <= tags@.len(),
            forall|j: int|
                0 <= j < i ==> !(tag_views(tags@)[j].len() > 0 && tag_views(tags@)[j][0] == c),
        decreases tags@.len() - i,
    {
        let t = tags[i].as_str();
        if t.unicode_len() > 0 {
            if t.get_char(0) == c {
                proof {
                    let tv = tag_views(tags@);
                    assert(tv[i as int].len() > 0 && tv[i as int][0] == c);
                }
                return true;
            }
        }
        i += 1;
    }
    false
}

/// The first tag that names a verb category, in list order.
pub open spec fn spec_first_verb_tag(tags: Seq<Seq<char>>) -> Option<VerbCategory>
    decreases tags.len(),
{
    if tags.len() == 0 {
        None
    } else {
        match spec_parse_verb_tag(tags[0]) {
            Some(cat) => Some(cat),
            None => spec_first_verb_tag(tags.drop_first()),
        }
    }
}

pub fn first_verb_tag(tags: &Vec<String>) -> (r: Option<VerbCategory>)
    ensures
        r == spec_first_verb_tag(tag_views(tags@)),
{
    let mut i: usize = 0;
    proof {
        assert(tag_views(tags@).skip(0) =~= tag_views(tags@));
    }
    while i < tags.len()
        invariant
            0 <= i <= tags@.len(),
            spec_first_verb_tag(tag_views(tags@)) == spec_first_verb_tag(
                tag_views(tags@).skip(i as int),
            ),
        decreases tags@.len() - i,
    {
        let parsed = parse_verb_tag(tags[i].as_str());
        proof {
            assert(tag_views(tags@).skip(i as int)[0] == tag_views(tags@)[i as int]);
            assert(tag_views(tags@).skip(i as int).drop_first() =~= tag_views(tags@).skip(
                i as int + 1,
            ));
        }
        if let Some(cat) = parsed {
            return Some(cat);
        }
        i += 1;
    }
    None
}

/// Whether the dictionary form is long enough for every rule of the category.
pub open spec fn conjugation_rules_fit(v: Seq<char>, cat: VerbCategory, reading: bool) -> bool {
    &&& rule_fits(v, masu_stem_rule(cat, reading))
    &&& rule_fits(v, causative_rule(cat, reading))
    &&& rule_fits(v, imperative_rule(cat, reading))
    &&& rule_fits(v, passive_rule(cat, reading))
    &&& rule_fits(v, potential_rule(cat, reading))
    &&& rule_fits(v, provisional_conditional_rule(cat, reading))
    &&& rule_fits(v, volitional_rule(cat, reading))
    &&& rule_fits(v, negative_rule(cat, reading))
    &&& rule_fits(v, past_rule(cat, reading))
    &&& rule_fits(v, te_form_rule(cat, reading))
}

/// Checks at run time that both surface forms are long enough for the
/// category, so that callers without static knowledge of their data can
/// establish the conjugator's precondition.
pub fn conjugation_inputs_fit(kanji_form: &str, kana_form: &str, category: VerbCategory) -> (r:
    bool)
    ensures
        r == (conjugation_rules_fit(kanji_form@, category, false) && conjugation_rules_fit(
            kana_form@,
            category,
            true,
        )),
{
    let kanji_len = kanji_form.unicode_len();
    let kana_len = kana_form.unicode_len();
    let kanji_needs: usize = match category {
        VerbCategory::V5RI | VerbCategory::VsI | VerbCategory::VsS | VerbCategory::Vz => 2,
        _ => 1,
    };
    let kana_needs: usize = match category {
        VerbCategory::V5RI | VerbCategory::VsI | VerbCategory::VsS | VerbCategory::Vz
        | VerbCategory::Vk => 2,
        _ => 1,
    };
    kanji_len >= kanji_needs && kana_len >= kana_needs
}

fn forms1(a: GrammaticalForm) -> (r: Vec<GrammaticalForm>)
    ensures
        r@ == seq![a],
{
    let mut v: Vec<GrammaticalForm> = Vec::new();
    v.push(a);
    proof {
        assert(v@ =~= seq![a]);
    }
    v
}

fn forms2(a: GrammaticalForm, b: GrammaticalForm) -> (r: Vec<GrammaticalForm>)
    ensures
        r@ == seq![a, b],
{
    let mut v: Vec<GrammaticalForm> = Vec::new();
    v.push(a);
    v.push(b);
    proof {
        assert(v@ =~= seq![a, b]);
    }
    v
}

fn forms3(a: GrammaticalForm, b: GrammaticalForm, c: GrammaticalForm) -> (r: Vec<GrammaticalForm>)
    ensures
        r@ == seq![a, b, c],
{
    let mut v: Vec<GrammaticalForm> = Vec::new();
    v.push(a);
    v.push(b);
    v.push(c);
    proof {
        assert(v@ =~= seq![a, b, c]);
    }
    v
}

fn forms4(
    a: GrammaticalForm,
    b: GrammaticalForm,
    c: GrammaticalForm,
    d: GrammaticalForm,
) -> (r: Vec<GrammaticalForm>)
    ensures
        r@ == seq![a, b, c, d],
{
    let mut v: Vec<GrammaticalForm> = Vec::new();
    v.push(a);
    v.push(b);
    v.push(c);
    v.push(d);
    proof {
        assert(v@ =~= seq![a, b, c, d]);
    }
    v
}

/// One row of the conjugation table.
pub open spec fn row(
    kanji: Seq<char>,
    kana: Seq<char>,
    forms: Seq<GrammaticalForm>,
) -> ConjugationModel {
    ConjugationModel { kanji_form: kanji, kana_form: kana, grammatical_forms: forms }
}

/// The plain axis of the conjugation table.
pub open spec fn spec_plain_axis(ka: Seq<char>, kn: Seq<char>, c: VerbCategory) -> Seq<
    ConjugationModel,
> {
    seq![
        row(
            spec_causative(ka, c, false),
            spec_causative(kn, c, true),
            seq![GrammaticalForm::Causative],
        ),
        row(
            spec_causative_passive(ka, c, false),
            spec_causative_passive(kn, c, true),
            seq![GrammaticalForm::Causative, GrammaticalForm::Passive],
        ),
        row(
            spec_causative_short(ka, c, false),
            spec_causative_short(kn, c, true),
            seq![GrammaticalForm::Causative, GrammaticalForm::Short],
        ),
        row(
            spec_conditional(ka, c, false),
            spec_conditional(kn, c, true),
            seq![GrammaticalForm::Conditional],
        ),
        row(spec_desire(ka, c, false), spec_desire(kn, c, true), seq![GrammaticalForm::Desire]),
        row(
            spec_imperative(ka, c, false),
            spec_imperative(kn, c, true),
            seq![GrammaticalForm::Imperative],
        ),
        row(spec_passive(ka, c, false), spec_passive(kn, c, true), seq![GrammaticalForm::Passive]),
        row(
            spec_potential(ka, c, false),
            spec_potential(kn, c, true),
            seq![GrammaticalForm::Potential],
        ),
        row(
            spec_provisional_conditional(ka, c, false),
            spec_provisional_conditional(kn, c, true),
            seq![GrammaticalForm::ProvisionalConditional],
        ),
        row(
            spec_volitional(ka, c, false),
            spec_volitional(kn, c, true),
            seq![GrammaticalForm::Volitional],
        ),
    ]
}

fn plain_axis(ka: &str, kn: &str, c: VerbCategory) -> (r: Vec<VerbConjugation>)
    requires
        conjugation_rules_fit(ka@, c, false),
        conjugation_rules_fit(kn@, c, true),
    ensures
        r@.map_values(|x: VerbConjugation| x@) == spec_plain_axis(ka@, kn@, c),
{
    let mut out: Vec<VerbConjugation> = Vec::new();
    out.push(VerbConjugation {
        kanji_form: causative(ka, c, false),
        kana_form: causative(kn, c, true),
        grammatical_forms: forms1(GrammaticalForm::Causative),
    });
    out.push(VerbConjugation {
        kanji_form: causative_passive(ka, c, false),
        kana_form: causative_passive(kn, c, true),
        grammatical_forms: forms2(GrammaticalForm::Causative, GrammaticalForm::Passive),
    });
    out.push(VerbConjugation {
        kanji_form: causative_short(ka, c, false),
        kana_form: causative_short(kn, c, true),
        grammatical_forms: forms2(GrammaticalForm::Causative, GrammaticalForm::Short),
    });
    out.push(VerbConjugation {
        kanji_form: conditional(ka, c, false),
        kana_form: conditional(kn, c, true),
        grammatical_forms: forms1(GrammaticalForm::Conditional),
    });
    out.push(VerbConjugation {
        kanji_form: desire(ka, c, false),
        kana_form: desire(kn, c, true),
        grammatical_forms: forms1(GrammaticalForm::Desire),
    });
    out.push(VerbConjugation {
        kanji_form: imperative(ka, c, false),
        kana_form: imperative(kn, c, true),
        grammatical_forms: forms1(GrammaticalForm::Imperative),
    });
    out.push(VerbConjugation {
        kanji_form: passive(ka, c, false),
        kana_form: passive(kn, c, true),
        grammatical_forms: forms1(GrammaticalForm::Passive),
    });
    out.push(VerbConjugation {
        kanji_form: potential(ka, c, false),
        kana_form: potential(kn, c, true),
        grammatical_forms: forms1(GrammaticalForm::Potential),
    });
    out.push(VerbConjugation {
        kanji_form: provisional_conditional(ka, c, false),
        kana_form: provisional_conditional(kn, c, true),
        grammatical_forms: forms1(GrammaticalForm::ProvisionalConditional),
    });
    out.push(VerbConjugation {
        kanji_form: volitional(ka, c, false),
        kana_form: volitional(kn, c, true),
        grammatical_forms: forms1(GrammaticalForm::Volitional),
    });
    proof {
        assert(out@.map_values(|x: VerbConjugation| x@) =~= spec_plain_axis(ka@, kn@, c));
    }
    out
}

/// The negative axis of the conjugation table.
pub open spec fn spec_negative_axis(ka: Seq<char>, kn: Seq<char>, c: VerbCategory) -> Seq<
    ConjugationModel,
> {
    seq![
        row(
            spec_negative(ka, c, false),
            spec_negative(kn, c, true),
            seq![GrammaticalForm::Negative],
        ),
        row(
            spec_causative_negative(ka, c, false),
            spec_causative_negative(kn, c, true),
            seq![GrammaticalForm::Causative, GrammaticalForm::Negative],
        ),
        row(
            spec_causative_passive_negative(ka, c, false),
            spec_causative_passive_negative(kn, c, true),
            seq![GrammaticalForm::Causative, GrammaticalForm::Passive, GrammaticalForm::Negative],
        ),
        row(
            spec_conditional_negative(ka, c, false),
            spec_conditional_negative(kn, c, true),
            seq![GrammaticalForm::Conditional, GrammaticalForm::Negative],
        ),
        row(
            spec_desire_negative(ka, c, false),
            spec_desire_negative(kn, c, true),
            seq![GrammaticalForm::Desire, GrammaticalForm::Negative],
        ),
        row(
            spec_imperative_negative(ka, c, false),
            spec_imperative_negative(kn, c, true),
            seq![GrammaticalForm::Imperative, GrammaticalForm::Negative],
        ),
        row(
            spec_passive_negative(ka, c, false),
            spec_passive_negative(kn, c, true),
            seq![GrammaticalForm::Passive, GrammaticalForm::Negative],
        ),
        row(
            spec_potential_negative(ka, c, false),
            spec_potential_negative(kn, c, true),
            seq![GrammaticalForm::Potential, GrammaticalForm::Negative],
        ),
    ]
}

fn negative_axis(ka: &str, kn: &str, c: VerbCategory) -> (r: Vec<VerbConjugation>)
    requires
        conjugation_rules_fit(ka@, c, false),
        conjugation_rules_fit(kn@, c, true),
    ensures
        r@.map_values(|x: VerbConjugation| x@) == spec_negative_axis(ka@, kn@, c),
{
    let mut out: Vec<VerbConjugation> = Vec::new();
    out.push(VerbConjugation {
        kanji_form: negative(ka, c, false),
        kana_form: negative(kn, c, true),
        grammatical_forms: forms1(GrammaticalForm::Negative),
    });
    out.push(VerbConjugation {
        kanji_form: causative_negative(ka, c, false),
        kana_form: causative_negative(kn, c, true),
        grammatical_forms: forms2(GrammaticalForm::Causative, GrammaticalForm::Negative),
    });
    out.push(VerbConjugation {
        kanji_form: causative_passive_negative(ka, c, false),
        kana_form: causative_passive_negative(kn, c, true),
        grammatical_forms: forms3(
            GrammaticalForm::Causative,
            GrammaticalForm::Passive,
            GrammaticalForm::Negative,
        ),
    });
    out.push(VerbConjugation {
        kanji_form: conditional_negative(ka, c, false),
        kana_form: conditional_negative(kn, c, true),
        grammatical_forms: forms2(GrammaticalForm::Conditional, GrammaticalForm::Negative),
    });
    out.push(VerbConjugation {
        kanji_form: desire_negative(ka, c, false),
        kana_form: desire_negative(kn, c, true),
        grammatical_forms: forms2(GrammaticalForm::Desire, GrammaticalForm::Negative),
    });
    out.push(VerbConjugation {
        kanji_form: imperative_negative(ka, c, false),
        kana_form: imperative_negative(kn, c, true),
        grammatical_forms: forms2(GrammaticalForm::Imperative, GrammaticalForm::Negative),
    });
    out.push(VerbConjugation {
        kanji_form: passive_negative(ka, c, false),
        kana_form: passive_negative(kn, c, true),
        grammatical_forms: forms2(GrammaticalForm::Passive, GrammaticalForm::Negative),
    });
    out.push(VerbConjugation {
        kanji_form: potential_negative(ka, c, false),
        kana_form: potential_negative(kn, c, true),
        grammatical_forms: forms2(GrammaticalForm::Potential, GrammaticalForm::Negative),
    });
    proof {
        assert(out@.map_values(|x: VerbConjugation| x@) =~= spec_negative_axis(ka@, kn@, c));
    }
    out
}

/// The past axis of the conjugation table.
pub open spec fn spec_past_axis(ka: Seq<char>, kn: Seq<char>, c: VerbCategory) -> Seq<
    ConjugationModel,
> {
    seq![
        row(spec_past(ka, c, false), spec_past(kn, c, true), seq![GrammaticalForm::Past]),
        row(
            spec_causative_past(ka, c, false),
            spec_causative_past(kn, c, true),
            seq![GrammaticalForm::Causative, GrammaticalForm::Past],
        ),
        row(
            spec_causative_passive_past(ka, c, false),
            spec_causative_passive_past(kn, c, true),
            seq![GrammaticalForm::Causative, GrammaticalForm::Passive, GrammaticalForm::Past],
        ),
        row(
            spec_desire_past(ka, c, false),
            spec_desire_past(kn, c, true),
            seq![GrammaticalForm::Desire, GrammaticalForm::Past],
        ),
        row(
            spec_passive_past(ka, c, false),
            spec_passive_past(kn, c, true),
            seq![GrammaticalForm::Passive, GrammaticalForm::Past],
        ),
        row(
            spec_potential_past(ka, c, false),
            spec_potential_past(kn, c, true),
            seq![GrammaticalForm::Potential, GrammaticalForm::Past],
        ),
    ]
}

fn past_axis(ka: &str, kn: &str, c: VerbCategory) -> (r: Vec<VerbConjugation>)
    requires
        conjugation_rules_fit(ka@, c, false),
        conjugation_rules_fit(kn@, c, true),
    ensures
        r@.map_values(|x: VerbConjugation| x@) == spec_past_axis(ka@, kn@, c),
{
    let mut out: Vec<VerbConjugation> = Vec::new();
    out.push(VerbConjugation {
        kanji_form: past(ka, c, false),
        kana_form: past(kn, c, true),
        grammatical_forms: forms1(GrammaticalForm::Past),
    });
    out.push(VerbConjugation {
        kanji_form: causative_past(ka, c, false),
        kana_form: causative_past(kn, c, true),
        grammatical_forms: forms2(GrammaticalForm::Causative, GrammaticalForm::Past),
    });
    out.push(VerbConjugation {
        kanji_form: causative_passive_past(ka, c, false),
        kana_form: causative_passive_past(kn, c, true),
        grammatical_forms: forms3(
            GrammaticalForm::Causative,
            GrammaticalForm::Passive,
            GrammaticalForm::Past,
        ),
    });
    out.push(VerbConjugation {
        kanji_form: desire_past(ka, c, false),
        kana_form: desire_past(kn, c, true),
        grammatical_forms: forms2(GrammaticalForm::Desire, GrammaticalForm::Past),
    });
    out.push(VerbConjugation {
        kanji_form: passive_past(ka, c, false),
        kana_form: passive_past(kn, c, true),
        grammatical_forms: forms2(GrammaticalForm::Passive, GrammaticalForm::Past),
    });
    out.push(VerbConjugation {
        kanji_form: potential_past(ka, c, false),
        kana_form: potential_past(kn, c, true),
        grammatical_forms: forms2(GrammaticalForm::Potential, GrammaticalForm::Past),
    });
    proof {
        assert(out@.map_values(|x: VerbConjugation| x@) =~= spec_past_axis(ka@, kn@, c));
    }
    out
}

/// The past negative axis of the conjugation table.
pub open spec fn spec_past_negative_axis(ka: Seq<char>, kn: Seq<char>, c: VerbCategory) -> Seq<
    ConjugationModel,
> {
    seq![
        row(
            spec_past_negative(ka, c, false),
            spec_past_negative(kn, c, true),
            seq![GrammaticalForm::Past, GrammaticalForm::Negative],
        ),
        row(
            spec_causative_past_negative(ka, c, false),
            spec_causative_past_negative(kn, c, true),
            seq![GrammaticalForm::Causative, GrammaticalForm::Past, GrammaticalForm::Negative],
        ),
        row(
            spec_causative_passive_past_negative(ka, c, false),
            spec_causative_passive_past_negative(kn, c, true),
            seq![
                GrammaticalForm::Causative,
                GrammaticalForm::Passive,
                GrammaticalForm::Past,
                GrammaticalForm::Negative,
            ],
        ),
        row(
            spec_desire_past_negative(ka, c, false),
            spec_desire_past_negative(kn, c, true),
            seq![GrammaticalForm::Desire, GrammaticalForm::Past, GrammaticalForm::Negative],
        ),
        row(
            spec_passive_past_negative(ka, c, false),
            spec_passive_past_negative(kn, c, true),
            seq![GrammaticalForm::Passive, GrammaticalForm::Past, GrammaticalForm::Negative],
        ),
        row(
            spec_potential_past_negative(ka, c, false),
            spec_potential_past_negative(kn, c, true),
            seq![GrammaticalForm::Potential, GrammaticalForm::Past, GrammaticalForm::Negative],
        ),
    ]
}

fn past_negative_axis(ka: &str, kn: &str, c: VerbCategory) -> (r: Vec<VerbConjugation>)
    requires
        conjugation_rules_fit(ka@, c, false),
        conjugation_rules_fit(kn@, c, true),
    ensures
        r@.map_values(|x: VerbConjugation| x@) == spec_past_negative_axis(ka@, kn@, c),
{
    let mut out: Vec<VerbConjugation> = Vec::new();
    out.push(VerbConjugation {
        kanji_form: past_negative(ka, c, false),
        kana_form: past_negative(kn, c, true),
        grammatical_forms: forms2(GrammaticalForm::Past, GrammaticalForm::Negative),
    });
    out.push(VerbConjugation {
        kanji_form: causative_past_negative(ka, c, false),
        kana_form: causative_past_negative(kn, c, true),
        grammatical_forms: forms3(
            GrammaticalForm::Causative,
            GrammaticalForm::Past,
            GrammaticalForm::Negative,
        ),
    });
    out.push(VerbConjugation {
        kanji_form: causative_passive_past_negative(ka, c, false),
        kana_form: causative_passive_past_negative(kn, c, true),
        grammatical_forms: forms4(
            GrammaticalForm::Causative,
            GrammaticalForm::Passive,
            GrammaticalForm::Past,
            GrammaticalForm::Negative,
        ),
    });
    out.push(VerbConjugation {
        kanji_form: desire_past_negative(ka, c, false),
        kana_form: desire_past_negative(kn, c, true),
        grammatical_forms: forms3(
            GrammaticalForm::Desire,
            GrammaticalForm::Past,
            GrammaticalForm::Negative,
        ),
    });
    out.push(VerbConjugation {
        kanji_form: passive_past_negative(ka, c, false),
        kana_form: passive_past_negative(kn, c, true),
        grammatical_forms: forms3(
            GrammaticalForm::Passive,
            GrammaticalForm::Past,
            GrammaticalForm::Negative,
        ),
    });
    out.push(VerbConjugation {
        kanji_form: potential_past_negative(ka, c, false),
        kana_form: potential_past_negative(kn, c, true),
        grammatical_forms: forms3(
            GrammaticalForm::Potential,
            GrammaticalForm::Past,
            GrammaticalForm::Negative,
        ),
    });
    proof {
        assert(out@.map_values(|x: VerbConjugation| x@) =~= spec_past_negative_axis(ka@, kn@, c));
    }
    out
}

/// The te axis of the conjugation table.
pub open spec fn spec_te_axis(ka: Seq<char>, kn: Seq<char>, c: VerbCategory) -> Seq<
    ConjugationModel,
> {
    seq![
        row(spec_te_form(ka, c, false), spec_te_form(kn, c, true), seq![GrammaticalForm::TeForm]),
        row(
            spec_causative_te(ka, c, false),
            spec_causative_te(kn, c, true),
            seq![GrammaticalForm::Causative, GrammaticalForm::TeForm],
        ),
        row(
            spec_causative_passive_te(ka, c, false),
            spec_causative_passive_te(kn, c, true),
            seq![GrammaticalForm::Causative, GrammaticalForm::Passive, GrammaticalForm::TeForm],
        ),
        row(
            spec_passive_te(ka, c, false),
            spec_passive_te(kn, c, true),
            seq![GrammaticalForm::Passive, GrammaticalForm::TeForm],
        ),
        row(
            spec_potential_te(ka, c, false),
            spec_potential_te(kn, c, true),
            seq![GrammaticalForm::Potential, GrammaticalForm::TeForm],
        ),
    ]
}

fn te_axis(ka: &str, kn: &str, c: VerbCategory) -> (r: Vec<VerbConjugation>)
    requires
        conjugation_rules_fit(ka@, c, false),
        conjugation_rules_fit(kn@, c, true),
    ensures
        r@.map_values(|x: VerbConjugation| x@) == spec_te_axis(ka@, kn@, c),
{
    let mut out: Vec<VerbConjugation> = Vec::new();
    out.push(VerbConjugation {
        kanji_form: te_form(ka, c, false),
        kana_form: te_form(kn, c, true),
        grammatical_forms: forms1(GrammaticalForm::TeForm),
    });
    out.push(VerbConjugation {
        kanji_form: causative_te(ka, c, false),
        kana_form: causative_te(kn, c, true),
        grammatical_forms: forms2(GrammaticalForm::Causative, GrammaticalForm::TeForm),
    });
    out.push(VerbConjugation {
        kanji_form: causative_passive_te(ka, c, false),
        kana_form: causative_passive_te(kn, c, true),
        grammatical_forms: forms3(
            GrammaticalForm::Causative,
            GrammaticalForm::Passive,
            GrammaticalForm::TeForm,
        ),
    });
    out.push(VerbConjugation {
        kanji_form: passive_te(ka, c, false),
        kana_form: passive_te(kn, c, true),
        grammatical_forms: forms2(GrammaticalForm::Passive, GrammaticalForm::TeForm),
    });
    out.push(VerbConjugation {
        kanji_form: potential_te(ka, c, false),
        kana_form: potential_te(kn, c, true),
        grammatical_forms: forms2(GrammaticalForm::Potential, GrammaticalForm::TeForm),
    });
    proof {
        assert(out@.map_values(|x: VerbConjugation| x@) =~= spec_te_axis(ka@, kn@, c));
    }
    out
}

/// The polite axis of the conjugation table.
pub open spec fn spec_polite_axis(ka: Seq<char>, kn: Seq<char>, c: VerbCategory) -> Seq<
    ConjugationModel,
> {
    seq![
        row(spec_polite(ka, c, false), spec_polite(kn, c, true), seq![GrammaticalForm::Polite]),
        row(
            spec_causative_polite(ka, c, false),
            spec_causative_polite(kn, c, true),
            seq![GrammaticalForm::Causative, GrammaticalForm::Polite],
        ),
        row(
            spec_causative_passive_polite(ka, c, false),
            spec_causative_passive_polite(kn, c, true),
            seq![GrammaticalForm::Causative, GrammaticalForm::Passive, GrammaticalForm::Polite],
        ),
        row(
            spec_passive_polite(ka, c, false),
            spec_passive_polite(kn, c, true),
            seq![GrammaticalForm::Passive, GrammaticalForm::Polite],
        ),
        row(
            spec_potential_polite(ka, c, false),
            spec_potential_polite(kn, c, true),
            seq![GrammaticalForm::Potential, GrammaticalForm::Polite],
        ),
        row(
            spec_volitional_polite(ka, c, false),
            spec_volitional_polite(kn, c, true),
            seq![GrammaticalForm::Volitional, GrammaticalForm::Polite],
        ),
    ]
}

fn polite_axis(ka: &str, kn: &str, c: VerbCategory) -> (r: Vec<VerbConjugation>)
    requires
        conjugation_rules_fit(ka@, c, false),
        conjugation_rules_fit(kn@, c, true),
    ensures
        r@.map_values(|x: VerbConjugation| x@) == spec_polite_axis(ka@, kn@, c),
{
    let mut out: Vec<VerbConjugation> = Vec::new();
    out.push(VerbConjugation {
        kanji_form: polite(ka, c, false),
        kana_form: polite(kn, c, true),
        grammatical_forms: forms1(GrammaticalForm::Polite),
    });
    out.push(VerbConjugation {
        kanji_form: causative_polite(ka, c, false),
        kana_form: causative_polite(kn, c, true),
        grammatical_forms: forms2(GrammaticalForm::Causative, GrammaticalForm::Polite),
    });
    out.push(VerbConjugation {
        kanji_form: causative_passive_polite(ka, c, false),
        kana_form: causative_passive_polite(kn, c, true),
        grammatical_forms: forms3(
            GrammaticalForm::Causative,
            GrammaticalForm::Passive,
            GrammaticalForm::Polite,
        ),
    });
    out.push(VerbConjugation {
        kanji_form: passive_polite(ka, c, false),
        kana_form: passive_polite(kn, c, true),
        grammatical_forms: forms2(GrammaticalForm::Passive, GrammaticalForm::Polite),
    });
    out.push(VerbConjugation {
        kanji_form: potential_polite(ka, c, false),
        kana_form: potential_polite(kn, c, true),
        grammatical_forms: forms2(GrammaticalForm::Potential, GrammaticalForm::Polite),
    });
    out.push(VerbConjugation {
        kanji_form: volitional_polite(ka, c, false),
        kana_form: volitional_polite(kn, c, true),
        grammatical_forms: forms2(GrammaticalForm::Volitional, GrammaticalForm::Polite),
    });
    proof {
        assert(out@.map_values(|x: VerbConjugation| x@) =~= spec_polite_axis(ka@, kn@, c));
    }
    out
}

/// The polite negative axis of the conjugation table.
pub open spec fn spec_polite_negative_axis(ka: Seq<char>, kn: Seq<char>, c: VerbCategory) -> Seq<
    ConjugationModel,
> {
    seq![
        row(
            spec_polite_negative(ka, c, false),
            spec_polite_negative(kn, c, true),
            seq![GrammaticalForm::Polite, GrammaticalForm::Negative],
        ),
        row(
            spec_causative_polite_negative(ka, c, false),
            spec_causative_polite_negative(kn, c, true),
            seq![GrammaticalForm::Causative, GrammaticalForm::Polite, GrammaticalForm::Negative],
        ),
        row(
            spec_causative_passive_polite_negative(ka, c, false),
            spec_causative_passive_polite_negative(kn, c, true),
            seq![
                GrammaticalForm::Causative,
                GrammaticalForm::Passive,
                GrammaticalForm::Polite,
                GrammaticalForm::Negative,
            ],
        ),
        row(
            spec_passive_polite_negative(ka, c, false),
            spec_passive_polite_negative(kn, c, true),
            seq![GrammaticalForm::Passive, GrammaticalForm::Polite, GrammaticalForm::Negative],
        ),
        row(
            spec_potential_polite_negative(ka, c, false),
            spec_potential_polite_negative(kn, c, true),
            seq![GrammaticalForm::Potential, GrammaticalForm::Polite, GrammaticalForm::Negative],
        ),
    ]
}

fn polite_negative_axis(ka: &str, kn: &str, c: VerbCategory) -> (r: Vec<VerbConjugation>)
    requires
        conjugation_rules_fit(ka@, c, false),
        conjugation_rules_fit(kn@, c, true),
    ensures
        r@.map_values(|x: VerbConjugation| x@) == spec_polite_negative_axis(ka@, kn@, c),
{
    let mut out: Vec<VerbConjugation> = Vec::new();
    out.push(VerbConjugation {
        kanji_form: polite_negative(ka, c, false),
        kana_form: polite_negative(kn, c, true),
        grammatical_forms: forms2(GrammaticalForm::Polite, GrammaticalForm::Negative),
    });
    out.push(VerbConjugation {
        kanji_form: causative_polite_negative(ka, c, false),
        kana_form: causative_polite_negative(kn, c, true),
        grammatical_forms: forms3(
            GrammaticalForm::Causative,
            GrammaticalForm::Polite,
            GrammaticalForm::Negative,
        ),
    });
    out.push(VerbConjugation {
        kanji_form: causative_passive_polite_negative(ka, c, false),
        kana_form: causative_passive_polite_negative(kn, c, true),
        grammatical_forms: forms4(
            GrammaticalForm::Causative,
            GrammaticalForm::Passive,
            GrammaticalForm::Polite,
            GrammaticalForm::Negative,
        ),
    });
    out.push(VerbConjugation {
        kanji_form: passive_polite_negative(ka, c, false),
        kana_form: passive_polite_negative(kn, c, true),
        grammatical_forms: forms3(
            GrammaticalForm::Passive,
            GrammaticalForm::Polite,
            GrammaticalForm::Negative,
        ),
    });
    out.push(VerbConjugation {
        kanji_form: potential_polite_negative(ka, c, false),
        kana_form: potential_polite_negative(kn, c, true),
        grammatical_forms: forms3(
            GrammaticalForm::Potential,
            GrammaticalForm::Polite,
            GrammaticalForm::Negative,
        ),
    });
    proof {
        assert(out@.map_values(|x: VerbConjugation| x@) =~= spec_polite_negative_axis(
            ka@,
            kn@,
            c,
        ));
    }
    out
}

/// The polite past axis of the conjugation table.
pub open spec fn spec_polite_past_axis(ka: Seq<char>, kn: Seq<char>, c: VerbCategory) -> Seq<
    ConjugationModel,
> {
    seq![
        row(
            spec_polite_past(ka, c, false),
            spec_polite_past(kn, c, true),
            seq![GrammaticalForm::Polite, GrammaticalForm::Past],
        ),
        row(
            spec_causative_polite_past(ka, c, false),
            spec_causative_polite_past(kn, c, true),
            seq![GrammaticalForm::Causative, GrammaticalForm::Polite, GrammaticalForm::Past],
        ),
        row(
            spec_causative_passive_polite_past(ka, c, false),
            spec_causative_passive_polite_past(kn, c, true),
            seq![
                GrammaticalForm::Causative,
                GrammaticalForm::Passive,
                GrammaticalForm::Polite,
                GrammaticalForm::Past,
            ],
        ),
        row(
            spec_passive_polite_past(ka, c, false),
            spec_passive_polite_past(kn, c, true),
            seq![GrammaticalForm::Passive, GrammaticalForm::Polite, GrammaticalForm::Past],
        ),
        row(
            spec_potential_polite_past(ka, c, false),
            spec_potential_polite_past(kn, c, true),
            seq![GrammaticalForm::Potential, GrammaticalForm::Polite, GrammaticalForm::Past],
        ),
    ]
}

fn polite_past_axis(ka: &str, kn: &str, c: VerbCategory) -> (r: Vec<VerbConjugation>)
    requires
        conjugation_rules_fit(ka@, c, false),
        conjugation_rules_fit(kn@, c, true),
    ensures
        r@.map_values(|x: VerbConjugation| x@) == spec_polite_past_axis(ka@, kn@, c),
{
    let mut out: Vec<VerbConjugation> = Vec::new();
    out.push(VerbConjugation {
        kanji_form: polite_past(ka, c, false),
        kana_form: polite_past(kn, c, true),
        grammatical_forms: forms2(GrammaticalForm::Polite, GrammaticalForm::Past),
    });
    out.push(VerbConjugation {
        kanji_form: causative_polite_past(ka, c, false),
        kana_form: causative_polite_past(kn, c, true),
        grammatical_forms: forms3(
            GrammaticalForm::Causative,
            GrammaticalForm::Polite,
            GrammaticalForm::Past,
        ),
    });
    out.push(VerbConjugation {
        kanji_form: causative_passive_polite_past(ka, c, false),
        kana_form: causative_passive_polite_past(kn, c, true),
        grammatical_forms: forms4(
            GrammaticalForm::Causative,
            GrammaticalForm::Passive,
            GrammaticalForm::Polite,
            GrammaticalForm::Past,
        ),
    });
    out.push(VerbConjugation {
        kanji_form: passive_polite_past(ka, c, false),
        kana_form: passive_polite_past(kn, c, true),
        grammatical_forms: forms3(
            GrammaticalForm::Passive,
            GrammaticalForm::Polite,
            GrammaticalForm::Past,
        ),
    });
    out.push(VerbConjugation {
        kanji_form: potential_polite_past(ka, c, false),
        kana_form: potential_polite_past(kn, c, true),
        grammatical_forms: forms3(
            GrammaticalForm::Potential,
            GrammaticalForm::Polite,
            GrammaticalForm::Past,
        ),
    });
    proof {
        assert(out@.map_values(|x: VerbConjugation| x@) =~= spec_polite_past_axis(ka@, kn@, c));
    }
    out
}

/// The whole table of conjugated forms, in the order they are emitted.
pub open spec fn spec_verb_conjugation_table(
    ka: Seq<char>,
    kn: Seq<char>,
    c: VerbCategory,
) -> Seq<ConjugationModel> {
    spec_plain_axis(ka, kn, c) + spec_negative_axis(ka, kn, c) + spec_past_axis(ka, kn, c)
        + spec_past_negative_axis(ka, kn, c) + spec_te_axis(ka, kn, c) + spec_polite_axis(
        ka,
        kn,
        c,
    ) + spec_polite_negative_axis(ka, kn, c) + spec_polite_past_axis(ka, kn, c) + seq![
        row(
            spec_polite_te_form(ka, c, false),
            spec_polite_te_form(kn, c, true),
            seq![GrammaticalForm::Polite, GrammaticalForm::TeForm],
        ),
    ]
}

/// The kana source the conjugator uses: the reading when one is given,
/// otherwise the lemma itself.
pub open spec fn spec_kana_source(kanji: Seq<char>, reading: Seq<char>) -> Seq<char> {
    if reading.len() == 0 {
        kanji
    } else {
        reading
    }
}

/// What the conjugator emits for a lemma, reading and tag list.
pub open spec fn spec_generate_verb_conjugations(
    kanji: Seq<char>,
    reading: Seq<char>,
    tags: Seq<Seq<char>>,
) -> Seq<ConjugationModel> {
    if !any_starts_with(tags, 'v') || kanji.len() == 0 {
        Seq::empty()
    } else {
        match spec_first_verb_tag(tags) {
            Some(cat) => spec_verb_conjugation_table(
                kanji,
                spec_kana_source(kanji, reading),
                cat,
            ),
            None => Seq::empty(),
        }
    }
}

/// Produces every inflected surface form of a verb lemma. The list is
/// empty unless some tag starts with the verb letter, the lemma is
/// non-empty, and some tag names a recognized verb category; the first
/// such tag decides the category.
pub fn generate_all_verb_conjugations(
    verb_kanji_form: &str,
    verb_reading_form: &str,
    tags: &Vec<String>,
) -> (r: Vec<VerbConjugation>)
    requires
        (any_starts_with(tag_views(tags@), 'v') && verb_kanji_form@.len() > 0
            && spec_first_verb_tag(tag_views(tags@)) is Some) ==> {
            let cat = spec_first_verb_tag(tag_views(tags@))->Some_0;
            &&& conjugation_rules_fit(verb_kanji_form@, cat, false)
            &&& conjugation_rules_fit(
                spec_kana_source(verb_kanji_form@, verb_reading_form@),
                cat,
                true,
            )
        },
    ensures
        r@.map_values(|x: VerbConjugation| x@) == spec_generate_verb_conjugations(
            verb_kanji_form@,
            verb_reading_form@,
            tag_views(tags@),
        ),
{
    let has_verb_tag = any_tag_starts_with(tags, 'v');
    if !has_verb_tag || verb_kanji_form.unicode_len() == 0 {
        let empty: Vec<VerbConjugation> = Vec::new();
        proof {
            assert(empty@.map_values(|x: VerbConjugation| x@) =~= Seq::<
                ConjugationModel,
            >::empty());
        }
        return empty;
    }
    match first_verb_tag(tags) {
        None => {
            let empty: Vec<VerbConjugation> = Vec::new();
            proof {
                assert(empty@.map_values(|x: VerbConjugation| x@) =~= Seq::<
                    ConjugationModel,
                >::empty());
            }
            empty
        },
        Some(category) => {
            let kana_form: &str = if verb_reading_form.unicode_len() == 0 {
                verb_kanji_form
            } else {
                verb_reading_form
            };
            let mut out = plain_axis(verb_kanji_form, kana_form, category);
            let mut part = negative_axis(verb_kanji_form, kana_form, category);
            out.append(&mut part);
            let mut part = past_axis(verb_kanji_form, kana_form, category);
            out.append(&mut part);
            let mut part = past_negative_axis(verb_kanji_form, kana_form, category);
            out.append(&mut part);
            let mut part = te_axis(verb_kanji_form, kana_form, category);
            out.append(&mut part);
            let mut part = polite_axis(verb_kanji_form, kana_form, category);
            out.append(&mut part);
            let mut part = polite_negative_axis(verb_kanji_form, kana_form, category);
            out.append(&mut part);
            let mut part = polite_past_axis(verb_kanji_form, kana_form, category);
            out.append(&mut part);
            out.push(VerbConjugation {
                kanji_form: polite_te_form(verb_kanji_form, category, false),
                kana_form: polite_te_form(kana_form, category, true),
                grammatical_forms: forms2(GrammaticalForm::Polite, GrammaticalForm::TeForm),
            });
            proof {
                assert(out@.map_values(|x: VerbConjugation| x@) =~= spec_verb_conjugation_table(
                    verb_kanji_form@,
                    kana_form@,
                    category,
                ));
            }
            out
        },
    }
}

/// The first k characters of a and b agree.
pub open spec fn prefix_eq(a: Seq<char>, b: Seq<char>, k: int) -> bool {
    &&& 0 <= k <= a.len()
    &&& k <= b.len()
    &&& a.subrange(0, k) == b.subrange(0, k)
}

proof fn lemma_apply_prefix(v: Seq<char>, r: (Seq<char>, int))
    requires
        rule_fits(v, r),
    ensures
        apply_rule(v, r).len() == v.len() - r.1 + r.0.len(),
        prefix_eq(v, apply_rule(v, r), v.len() - r.1),
{
    assert(apply_rule(v, r).subrange(0, v.len() - r.1) =~= v.subrange(0, v.len() - r.1));
}

/// Stripping and appending again, inside the part a previous rule added,
/// keeps an already preserved prefix.
proof fn lemma_step(orig: Seq<char>, cur: Seq<char>, k: int, r2: (Seq<char>, int))
    requires
        prefix_eq(orig, cur, k),
        0 <= r2.1,
        k <= cur.len() - r2.1,
    ensures
        prefix_eq(orig, apply_rule(cur, r2), k),
        apply_rule(cur, r2).len() == cur.len() - r2.1 + r2.0.len(),
{
    lemma_apply_prefix(cur, r2);
    let stepped = apply_rule(cur, r2);
    assert(orig.subrange(0, k) =~= stepped.subrange(0, k)) by {
        assert(forall|j: int|
            0 <= j < k ==> orig.subrange(0, k)[j] == #[trigger] orig[j] && orig[j] == cur[j]
                && cur[j] == stepped[j]) by {
            assert(forall|j: int|
                0 <= j < k ==> orig.subrange(0, k)[j] == #[trigger] cur.subrange(0, k)[j]);
            assert(forall|j: int|
                0 <= j < cur.len() - r2.1 ==> #[trigger] stepped[j] == cur.subrange(
                    0,
                    cur.len() - r2.1,
                )[j]);
        }
    }
}

/// Appending keeps an already preserved prefix.
proof fn lemma_append_step(orig: Seq<char>, cur: Seq<char>, k: int, suf: Seq<char>)
    requires
        prefix_eq(orig, cur, k),
    ensures
        prefix_eq(orig, cur + suf, k),
{
    assert(orig.subrange(0, k) =~= (cur + suf).subrange(0, k)) by {
        assert(forall|j: int|
            0 <= j < k ==> orig.subrange(0, k)[j] == #[trigger] cur.subrange(0, k)[j]);
    }
}

proof fn lemma_compound_suffix_lengths()
    ensures
        "られる"@.len() == 3,
        "す"@.len() == 1,
        "ら"@.len() == 1,
        "たい"@.len() == 2,
        "ない"@.len() == 2,
        "かった"@.len() == 3,
        "くない"@.len() == 3,
        "な"@.len() == 1,
        "くなかった"@.len() == 5,
        "た"@.len() == 1,
        "て"@.len() == 1,
        "ます"@.len() == 2,
        "ましょう"@.len() == 4,
        "ません"@.len() == 3,
        "ました"@.len() == 3,
        "まして"@.len() == 3,
{
    reveal_strlit("られる");
    reveal_strlit("す");
    reveal_strlit("ら");
    reveal_strlit("たい");
    reveal_strlit("ない");
    reveal_strlit("かった");
    reveal_strlit("くない");
    reveal_strlit("な");
    reveal_strlit("くなかった");
    reveal_strlit("た");
    reveal_strlit("て");
    reveal_strlit("ます");
    reveal_strlit("ましょう");
    reveal_strlit("ません");
    reveal_strlit("ました");
    reveal_strlit("まして");
}

/// The conjugator preserves the lemma stem: every emitted surface form
/// keeps the dictionary form's characters up to the ones its rule
/// replaces. Each clause names one form and the rule whose replacement
/// count bounds what the form may change.
pub proof fn lemma_conjugation_preserves_stem(v: Seq<char>, cat: VerbCategory, reading: bool)
    requires
        conjugation_rules_fit(v, cat, reading),
    ensures
        prefix_eq(v, spec_masu_stem(v, cat, reading), v.len() - masu_stem_rule(cat, reading).1),
        prefix_eq(v, spec_causative(v, cat, reading), v.len() - causative_rule(cat, reading).1),
        prefix_eq(v, spec_imperative(v, cat, reading), v.len() - imperative_rule(cat, reading).1),
        prefix_eq(v, spec_passive(v, cat, reading), v.len() - passive_rule(cat, reading).1),
        prefix_eq(v, spec_potential(v, cat, reading), v.len() - potential_rule(cat, reading).1),
        prefix_eq(
            v,
            spec_provisional_conditional(v, cat, reading),
            v.len() - provisional_conditional_rule(cat, reading).1,
        ),
        prefix_eq(v, spec_volitional(v, cat, reading), v.len() - volitional_rule(cat, reading).1),
        prefix_eq(v, spec_negative(v, cat, reading), v.len() - negative_rule(cat, reading).1),
        prefix_eq(v, spec_past(v, cat, reading), v.len() - past_rule(cat, reading).1),
        prefix_eq(v, spec_te_form(v, cat, reading), v.len() - te_form_rule(cat, reading).1),
        prefix_eq(
            v,
            spec_causative_passive(v, cat, reading),
            v.len() - causative_rule(cat, reading).1,
        ),
        prefix_eq(
            v,
            spec_causative_short(v, cat, reading),
            v.len() - causative_rule(cat, reading).1,
        ),
        prefix_eq(v, spec_conditional(v, cat, reading), v.len() - past_rule(cat, reading).1),
        prefix_eq(v, spec_desire(v, cat, reading), v.len() - masu_stem_rule(cat, reading).1),
        prefix_eq(
            v,
            spec_causative_negative(v, cat, reading),
            v.len() - causative_rule(cat, reading).1,
        ),
        prefix_eq(
            v,
            spec_causative_passive_negative(v, cat, reading),
            v.len() - causative_rule(cat, reading).1,
        ),
        prefix_eq(
            v,
            spec_conditional_negative(v, cat, reading),
            v.len() - negative_rule(cat, reading).1,
        ),
        prefix_eq(
            v,
            spec_desire_negative(v, cat, reading),
            v.len() - masu_stem_rule(cat, reading).1,
        ),
        prefix_eq(
            v,
            spec_imperative_negative(v, cat, reading),
            v.len() - imperative_rule(cat, reading).1,
        ),
        prefix_eq(
            v,
            spec_passive_negative(v, cat, reading),
            v.len() - passive_rule(cat, reading).1,
        ),
        prefix_eq(
            v,
            spec_potential_negative(v, cat, reading),
            v.len() - potential_rule(cat, reading).1,
        ),
        prefix_eq(
            v,
            spec_causative_past(v, cat, reading),
            v.len() - causative_rule(cat, reading).1,
        ),
        prefix_eq(
            v,
            spec_causative_passive_past(v, cat, reading),
            v.len() - causative_rule(cat, reading).1,
        ),
        prefix_eq(v, spec_desire_past(v, cat, reading), v.len() - masu_stem_rule(cat, reading).1),
        prefix_eq(v, spec_passive_past(v, cat, reading), v.len() - passive_rule(cat, reading).1),
        prefix_eq(
            v,
            spec_potential_past(v, cat, reading),
            v.len() - potential_rule(cat, reading).1,
        ),
        prefix_eq(v, spec_past_negative(v, cat, reading), v.len() - negative_rule(cat, reading).1),
        prefix_eq(
            v,
            spec_causative_past_negative(v, cat, reading),
            v.len() - causative_rule(cat, reading).1,
        ),
        prefix_eq(
            v,
            spec_causative_passive_past_negative(v, cat, reading),
            v.len() - causative_rule(cat, reading).1,
        ),
        prefix_eq(
            v,
            spec_desire_past_negative(v, cat, reading),
            v.len() - masu_stem_rule(cat, reading).1,
        ),
        prefix_eq(
            v,
            spec_passive_past_negative(v, cat, reading),
            v.len() - passive_rule(cat, reading).1,
        ),
        prefix_eq(
            v,
            spec_potential_past_negative(v, cat, reading),
            v.len() - potential_rule(cat, reading).1,
        ),
        prefix_eq(v, spec_causative_te(v, cat, reading), v.len() - causative_rule(cat, reading).1),
        prefix_eq(
            v,
            spec_causative_passive_te(v, cat, reading),
            v.len() - causative_rule(cat, reading).1,
        ),
        prefix_eq(v, spec_passive_te(v, cat, reading), v.len() - passive_rule(cat, reading).1),
        prefix_eq(v, spec_potential_te(v, cat, reading), v.len() - potential_rule(cat, reading).1),
        prefix_eq(v, spec_polite(v, cat, reading), v.len() - masu_stem_rule(cat, reading).1),
        prefix_eq(
            v,
            spec_causative_polite(v, cat, reading),
            v.len() - causative_rule(cat, reading).1,
        ),
        prefix_eq(
            v,
            spec_causative_passive_polite(v, cat, reading),
            v.len() - causative_rule(cat, reading).1,
        ),
        prefix_eq(v, spec_passive_polite(v, cat, reading), v.len() - passive_rule(cat, reading).1),
        prefix_eq(
            v,
            spec_potential_polite(v, cat, reading),
            v.len() - potential_rule(cat, reading).1,
        ),
        prefix_eq(
            v,
            spec_volitional_polite(v, cat, reading),
            v.len() - masu_stem_rule(cat, reading).1,
        ),
        prefix_eq(
            v,
            spec_polite_negative(v, cat, reading),
            v.len() - masu_stem_rule(cat, reading).1,
        ),
        prefix_eq(
            v,
            spec_causative_polite_negative(v, cat, reading),
            v.len() - causative_rule(cat, reading).1,
        ),
        prefix_eq(
            v,
            spec_causative_passive_polite_negative(v, cat, reading),
            v.len() - causative_rule(cat, reading).1,
        ),
        prefix_eq(
            v,
            spec_passive_polite_negative(v, cat, reading),
            v.len() - passive_rule(cat, reading).1,
        ),
        prefix_eq(
            v,
            spec_potential_polite_negative(v, cat, reading),
            v.len() - potential_rule(cat, reading).1,
        ),
        prefix_eq(v, spec_polite_past(v, cat, reading), v.len() - masu_stem_rule(cat, reading).1),
        prefix_eq(
            v,
            spec_causative_polite_past(v, cat, reading),
            v.len() - causative_rule(cat, reading).1,
        ),
        prefix_eq(
            v,
            spec_causative_passive_polite_past(v, cat, reading),
            v.len() - causative_rule(cat, reading).1,
        ),
        prefix_eq(
            v,
            spec_passive_polite_past(v, cat, reading),
            v.len() - passive_rule(cat, reading).1,
        ),
        prefix_eq(
            v,
            spec_potential_polite_past(v, cat, reading),
            v.len() - potential_rule(cat, reading).1,
        ),
        prefix_eq(
            v,
            spec_polite_te_form(v, cat, reading),
            v.len() - masu_stem_rule(cat, reading).1,
        ),
{
    lemma_rule_suffix_lengths(cat, reading);
    lemma_compound_suffix_lengths();
    let k_masu = v.len() - masu_stem_rule(cat, reading).1;
    let k_ca = v.len() - causative_rule(cat, reading).1;
    let k_imp = v.len() - imperative_rule(cat, reading).1;
    let k_pas = v.len() - passive_rule(cat, reading).1;
    let k_pot = v.len() - potential_rule(cat, reading).1;
    let k_neg = v.len() - negative_rule(cat, reading).1;
    let k_past = v.len() - past_rule(cat, reading).1;
    let k_te = v.len() - te_form_rule(cat, reading).1;
    lemma_apply_prefix(v, masu_stem_rule(cat, reading));
    lemma_apply_prefix(v, causative_rule(cat, reading));
    lemma_apply_prefix(v, imperative_rule(cat, reading));
    lemma_apply_prefix(v, passive_rule(cat, reading));
    lemma_apply_prefix(v, potential_rule(cat, reading));
    lemma_apply_prefix(v, provisional_conditional_rule(cat, reading));
    lemma_apply_prefix(v, volitional_rule(cat, reading));
    lemma_apply_prefix(v, negative_rule(cat, reading));
    lemma_apply_prefix(v, past_rule(cat, reading));
    lemma_apply_prefix(v, te_form_rule(cat, reading));
    let masu = spec_masu_stem(v, cat, reading);
    let ca = spec_causative(v, cat, reading);
    let imp = spec_imperative(v, cat, reading);
    let pas = spec_passive(v, cat, reading);
    let pot = spec_potential(v, cat, reading);
    let neg = spec_negative(v, cat, reading);
    let pst = spec_past(v, cat, reading);
    // The causative chain.
    lemma_step(v, ca, k_ca, ("られる"@, 1));
    let cp = spec_causative_passive(v, cat, reading);
    lemma_step(v, ca, k_ca, ("す"@, 2));
    lemma_step(v, ca, k_ca, negative_rule(VerbCategory::V1, reading));
    lemma_step(v, cp, k_ca, negative_rule(VerbCategory::V1, reading));
    lemma_step(v, ca, k_ca, past_rule(VerbCategory::V1, reading));
    lemma_step(v, cp, k_ca, past_rule(VerbCategory::V1, reading));
    let ca_neg = spec_negative(ca, VerbCategory::V1, reading);
    let cp_neg = spec_negative(cp, VerbCategory::V1, reading);
    lemma_step(v, ca_neg, k_ca, ("かった"@, 1));
    lemma_step(v, cp_neg, k_ca, ("かった"@, 1));
    lemma_step(v, ca, k_ca, te_form_rule(VerbCategory::V1, reading));
    lemma_step(v, cp, k_ca, te_form_rule(VerbCategory::V1, reading));
    lemma_step(v, ca, k_ca, ("ます"@, 1));
    lemma_step(v, cp, k_ca, ("ます"@, 1));
    lemma_step(v, ca, k_ca, ("ません"@, 1));
    lemma_step(v, cp, k_ca, ("ません"@, 1));
    lemma_step(v, ca, k_ca, ("ました"@, 1));
    lemma_step(v, cp, k_ca, ("ました"@, 1));
    // The passive chain.
    lemma_step(v, pas, k_pas, negative_rule(VerbCategory::V1, reading));
    lemma_step(v, pas, k_pas, past_rule(VerbCategory::V1, reading));
    let pas_neg = spec_negative(pas, VerbCategory::V1, reading);
    lemma_step(v, pas_neg, k_pas, ("かった"@, 1));
    lemma_step(v, pas, k_pas, te_form_rule(VerbCategory::V1, reading));
    lemma_step(v, pas, k_pas, ("ます"@, 1));
    lemma_step(v, pas, k_pas, ("ません"@, 1));
    lemma_step(v, pas, k_pas, ("ました"@, 1));
    // The potential chain.
    lemma_step(v, pot, k_pot, negative_rule(VerbCategory::V1, reading));
    lemma_step(v, pot, k_pot, past_rule(VerbCategory::V1, reading));
    let pot_neg = spec_negative(pot, VerbCategory::V1, reading);
    lemma_step(v, pot_neg, k_pot, ("かった"@, 1));
    lemma_step(v, pot, k_pot, te_form_rule(VerbCategory::V1, reading));
    lemma_step(v, pot, k_pot, ("ます"@, 1));
    lemma_step(v, pot, k_pot, ("ません"@, 1));
    lemma_step(v, pot, k_pot, ("ました"@, 1));
    // The desire and masu chains.
    lemma_append_step(v, masu, k_masu, "たい"@);
    let des = spec_desire(v, cat, reading);
    lemma_step(v, des, k_masu, ("くない"@, 1));
    lemma_step(v, des, k_masu, ("かった"@, 1));
    lemma_step(v, des, k_masu, ("くなかった"@, 1));
    lemma_append_step(v, masu, k_masu, "ます"@);
    lemma_append_step(v, masu, k_masu, "ましょう"@);
    lemma_append_step(v, masu, k_masu, "ません"@);
    lemma_append_step(v, masu, k_masu, "ました"@);
    lemma_append_step(v, masu, k_masu, "まして"@);
    // The past, negative and imperative chains.
    lemma_append_step(v, pst, k_past, "ら"@);
    lemma_step(v, neg, k_neg, ("かった"@, 1));
    let pstneg = spec_past_negative(v, cat, reading);
    lemma_append_step(v, pstneg, k_neg, "ら"@);
    lemma_append_step(v, imp, k_imp, "な"@);
}

} // verus!
