use vstd::prelude::*;

use crate::strutil::push_char;

verus! {

/// The decimal digit character of a value below ten.
pub open spec fn digit_char(d: int) -> char {
    ((48 + d) as u32) as char
}

/// The decimal rendering of a number.
pub open spec fn spec_decimal(n: int) -> Seq<char>
    decreases n,
{
    if n < 10 {
        seq![digit_char(n)]
    } else {
        spec_decimal(n / 10).push(digit_char(n % 10))
    }
}

proof fn lemma_digit_char(d: int, c: char)
    requires
        0 <= d < 10,
        c as int == 48 + d,
    ensures
        c == digit_char(d),
{
    broadcast use vstd::utf8::char_u32_cast;
    broadcast use vstd::utf8::char_is_scalar;

    let u = (48 + d) as u32;
    assert(c as u32 == u);
    assert((c as u32) as char == c);
}

/// Renders a number in decimal.
pub fn decimal_string(n: u32) -> (r: String)
    ensures
        r@ == spec_decimal(n as int),
    decreases n,
{
    let d = n % 10;
    let c = match crate::strutil::digit_to_char(d) {
        Some(c) => c,
        None => unreached(),
    };
    proof {
        lemma_digit_char(d as int, c);
    }
    if n < 10 {
        let mut s = String::new();
        push_char(&mut s, c);
        proof {
            assert(s@ =~= seq![digit_char(n as int)]);
        }
        s
    } else {
        let mut s = decimal_string(n / 10);
        push_char(&mut s, c);
        s
    }
}

/// One numbered file path: the stem, the number, the json ending.
pub open spec fn numbered_path(stem: Seq<char>, n: int) -> Seq<char> {
    stem + spec_decimal(n) + ".json"@
}

/// The numbered file paths of one source directory, from 1 to count.
pub open spec fn spec_numbered_paths(stem: Seq<char>, count: int) -> Seq<Seq<char>> {
    Seq::new(count as nat, |i: int| numbered_path(stem, i + 1))
}

fn numbered_paths(stem: &str, count: u32) -> (r: Vec<String>)
    ensures
        r@.map_values(|p: String| p@) == spec_numbered_paths(stem@, count as int),
{
    let mut out: Vec<String> = Vec::new();
    let mut i: u32 = 0;
    while i < count
        invariant
            0 <= i <= count,
            out@.map_values(|p: String| p@) =~= spec_numbered_paths(stem@, i as int),
        decreases count - i,
    {
        let number = decimal_string(i + 1);
        let path = stem.to_owned().concat(number.as_str()).concat(".json");
        let ghost pre = out@;
        out.push(path);
        proof {
            assert(pre.len() == i as int) by {
                assert(pre.map_values(|p: String| p@).len() == i as int);
            }
            assert forall|j: int| 0 <= j < i + 1 implies #[trigger] out@[j]@ == numbered_path(
                stem@,
                j + 1,
            ) by {
                if j < i {
                    assert(out@[j] == pre[j]);
                    assert(pre.map_values(|p: String| p@)[j] == spec_numbered_paths(
                        stem@,
                        i as int,
                    )[j]);
                }
            }
            assert(out@.map_values(|p: String| p@) =~= spec_numbered_paths(stem@, i as int + 1));
        }
        i += 1;
    }
    out
}

fn single_path(path: &str) -> (r: Vec<String>)
    ensures
        r@.map_values(|p: String| p@) == seq![path@],
{
    let mut out: Vec<String> = Vec::new();
    out.push(path.to_owned());
    proof {
        assert(out@.map_values(|p: String| p@) =~= seq![path@]);
    }
    out
}

pub fn jmdict_tag_paths() -> (r: Vec<String>)
    ensures
        r@.map_values(|p: String| p@) == seq!["resources/jmdict_english/tag_bank_1.json"@],
{
    single_path("resources/jmdict_english/tag_bank_1.json")
}

pub fn jmdict_dict_paths() -> (r: Vec<String>)
    ensures
        r@.map_values(|p: String| p@) == spec_numbered_paths(
            "resources/jmdict_english/term_bank_"@,
            32,
        ),
{
    numbered_paths("resources/jmdict_english/term_bank_", 32)
}

pub fn jmnedict_tag_paths() -> (r: Vec<String>)
    ensures
        r@.map_values(|p: String| p@) == seq!["resources/jmnedict/tag_bank_1.json"@],
{
    single_path("resources/jmnedict/tag_bank_1.json")
}

pub fn jmnedict_dict_paths() -> (r: Vec<String>)
    ensures
        r@.map_values(|p: String| p@) == spec_numbered_paths("resources/jmnedict/term_bank_"@, 75),
{
    numbered_paths("resources/jmnedict/term_bank_", 75)
}

pub fn kanjidic_tag_paths() -> (r: Vec<String>)
    ensures
        r@.map_values(|p: String| p@) == seq!["resources/kanjidic_english/tag_bank_1.json"@],
{
    single_path("resources/kanjidic_english/tag_bank_1.json")
}

pub fn kanjidic_dict_paths() -> (r: Vec<String>)
    ensures
        r@.map_values(|p: String| p@) == spec_numbered_paths(
            "resources/kanjidic_english/kanji_bank_"@,
            2,
        ),
{
    numbered_paths("resources/kanjidic_english/kanji_bank_", 2)
}

pub fn kanjium_tag_paths() -> (r: Vec<String>)
    ensures
        r@.map_values(|p: String| p@) == seq!["resources/kanjium_pitch_accents/tag_bank_1.json"@],
{
    single_path("resources/kanjium_pitch_accents/tag_bank_1.json")
}

pub fn kanjium_dict_paths() -> (r: Vec<String>)
    ensures
        r@.map_values(|p: String| p@) == spec_numbered_paths(
            "resources/kanjium_pitch_accents/term_meta_bank_"@,
            13,
        ),
{
    numbered_paths("resources/kanjium_pitch_accents/term_meta_bank_", 13)
}

pub fn innocent_kanji_dict_paths() -> (r: Vec<String>)
    ensures
        r@.map_values(|p: String| p@) == seq!["resources/innocent_corpus/kanji_meta_bank_1.json"@],
{
    single_path("resources/innocent_corpus/kanji_meta_bank_1.json")
}

pub fn innocent_vocab_dict_paths() -> (r: Vec<String>)
    ensures
        r@.map_values(|p: String| p@) == spec_numbered_paths(
            "resources/innocent_corpus/term_meta_bank_"@,
            29,
        ),
{
    numbered_paths("resources/innocent_corpus/term_meta_bank_", 29)
}

pub fn krad_dict_paths() -> (r: Vec<String>)
    ensures
        r@.map_values(|p: String| p@) == seq!["resources/radicals/kradfile.json"@],
{
    single_path("resources/radicals/kradfile.json")
}

pub fn radk_dict_paths() -> (r: Vec<String>)
    ensures
        r@.map_values(|p: String| p@) == seq!["resources/radicals/radkfilex.json"@],
{
    single_path("resources/radicals/radkfilex.json")
}

/// Where a loaded bank's binary cache is written.
pub trait ExportPath {
    fn export_path(&self) -> String;
}

} // verus!
