use vstd::prelude::*;

use crate::strutil::char_from_u32;
use crate::strutil::lemma_char_injective;
use crate::strutil::push_char;

verus! {

/// The fixed distance between a katakana letter and its hiragana counterpart.
pub open spec fn kana_shift(c: char) -> int {
    c as int - 0x60
}

/// A character the kana-to-hiragana conversion accepts: the block of
/// hiragana and katakana letters that have a counterpart 0x60 below.
pub open spec fn in_kana_range(c: char) -> bool {
    0x3041 <= c as int <= 0x30fe
}

pub fn katakana_to_hiragana_char(c: char) -> (r: char)
    requires
        in_kana_range(c),
    ensures
        r as int == kana_shift(c),
{
    let u = c as u32;
    let shifted = char_from_u32(u - 0x60);
    match shifted {
        Some(h) => h,
        None => c,
    }
}

/// The raised error names the string that could not be converted.
#[derive(Debug)]
pub struct NotConvertibleError {
    pub word: String,
}

impl NotConvertibleError {
    pub fn new(word: &str) -> (r: NotConvertibleError)
        ensures
            r.word@ == word@,
    {
        NotConvertibleError { word: word.to_owned() }
    }
}

/// What each kana character transliterates to: small ya, yu and yo
/// carry a contraction mark, the small tsu a gemination mark, and the
/// long vowel mark maps to nothing.
pub open spec fn spec_kana_to_romaji_char(c: char) -> Option<Seq<char>> {
    match c {
        'あ' => Some("a"@),
        'い' => Some("i"@),
        'う' => Some("u"@),
        'え' => Some("e"@),
        'お' => Some("o"@),
        'か' => Some("ka"@),
        'が' => Some("ga"@),
        'き' => Some("ki"@),
        'ぎ' => Some("gi"@),
        'く' => Some("ku"@),
        'ぐ' => Some("gu"@),
        'け' => Some("ke"@),
        'げ' => Some("ge"@),
        'こ' => Some("ko"@),
        'ご' => Some("go"@),
        'さ' => Some("sa"@),
        'ざ' => Some("za"@),
        'し' => Some("shi"@),
        'じ' => Some("ji"@),
        'す' => Some("su"@),
        'ず' => Some("zu"@),
        'せ' => Some("se"@),
        'ぜ' => Some("ze"@),
        'そ' => Some("so"@),
        'ぞ' => Some("zo"@),
        'た' => Some("ta"@),
        'だ' => Some("da"@),
        'ち' => Some("chi"@),
        'ぢ' => Some("ji"@),
        'つ' => Some("tsu"@),
        'づ' => Some("zu"@),
        'て' => Some("te"@),
        'で' => Some("de"@),
        'と' => Some("to"@),
        'ど' => Some("do"@),
        'な' => Some("na"@),
        'に' => Some("ni"@),
        'ぬ' => Some("nu"@),
        'ね' => Some("ne"@),
        'の' => Some("no"@),
        'は' => Some("ha"@),
        'ば' => Some("ba"@),
        'ぱ' => Some("pa"@),
        'ひ' => Some("hi"@),
        'び' => Some("bi"@),
        'ぴ' => Some("pi"@),
        'ふ' => Some("fu"@),
        'ぶ' => Some("bu"@),
        'ぷ' => Some("pu"@),
        'へ' => Some("he"@),
        'べ' => Some("be"@),
        'ぺ' => Some("pe"@),
        'ほ' => Some("ho"@),
        'ぼ' => Some("bo"@),
        'ぽ' => Some("po"@),
        'ま' => Some("ma"@),
        'み' => Some("mi"@),
        'む' => Some("mu"@),
        'め' => Some("me"@),
        'も' => Some("mo"@),
        'や' => Some("ya"@),
        'ゆ' => Some("yu"@),
        'よ' => Some("yo"@),
        'ら' => Some("ra"@),
        'り' => Some("ri"@),
        'る' => Some("ru"@),
        'れ' => Some("re"@),
        'ろ' => Some("ro"@),
        'わ' => Some("wa"@),
        'を' => Some("wo"@),
        'ん' => Some("n"@),
        'ゔ' => Some("vu"@),
        'ゐ' => Some("vi"@),
        'ゑ' => Some("e"@),
        'ゃ' => Some("-ya"@),
        'ゅ' => Some("-yu"@),
        'ょ' => Some("-yo"@),
        'ぁ' => Some("a"@),
        'ぅ' => Some("u"@),
        'ぇ' => Some("e"@),
        'ぉ' => Some("o"@),
        'ぃ' => Some("i"@),
        'っ' => Some("+"@),
        'ゖ' => Some("ke"@),
        'ゕ' => Some("ka"@),
        'ゎ' => Some("wa"@),
        'ァ' => Some("a"@),
        'ア' => Some("a"@),
        'ィ' => Some("i"@),
        'イ' => Some("i"@),
        'ゥ' => Some("u"@),
        'ウ' => Some("u"@),
        'ェ' => Some("e"@),
        'エ' => Some("e"@),
        'ォ' => Some("o"@),
        'オ' => Some("o"@),
        'カ' => Some("ka"@),
        'ガ' => Some("ga"@),
        'キ' => Some("ki"@),
        'ギ' => Some("gi"@),
        'ク' => Some("ku"@),
        'グ' => Some("gu"@),
        'ケ' => Some("ke"@),
        'ゲ' => Some("ge"@),
        'コ' => Some("ko"@),
        'ゴ' => Some("go"@),
        'サ' => Some("se"@),
        'ザ' => Some("ze"@),
        'シ' => Some("shi"@),
        'ジ' => Some("ji"@),
        'ス' => Some("su"@),
        'ズ' => Some("zu"@),
        'セ' => Some("se"@),
        'ゼ' => Some("ze"@),
        'ソ' => Some("so"@),
        'ゾ' => Some("zo"@),
        'タ' => Some("ta"@),
        'ダ' => Some("da"@),
        'チ' => Some("chi"@),
        'ヂ' => Some("ji"@),
        'ッ' => Some("+"@),
        'ツ' => Some("tsu"@),
        'ヅ' => Some("zu"@),
        'テ' => Some("te"@),
        'デ' => Some("de"@),
        'ト' => Some("to"@),
        'ド' => Some("do"@),
        'ナ' => Some("na"@),
        'ニ' => Some("ni"@),
        'ヌ' => Some("nu"@),
        'ネ' => Some("ne"@),
        'ノ' => Some("no"@),
        'ハ' => Some("ha"@),
        'バ' => Some("ba"@),
        'パ' => Some("pa"@),
        'ヒ' => Some("hi"@),
        'ビ' => Some("bi"@),
        'ピ' => Some("pi"@),
        'フ' => Some("fu"@),
        'ブ' => Some("bu"@),
        'プ' => Some("pu"@),
        'ヘ' => Some("he"@),
        'ベ' => Some("be"@),
        'ペ' => Some("pe"@),
        'ホ' => Some("ho"@),
        'ボ' => Some("bo"@),
        'ポ' => Some("po"@),
        'マ' => Some("ma"@),
        'ミ' => Some("mi"@),
        'ム' => Some("mu"@),
        'メ' => Some("me"@),
        'モ' => Some("mo"@),
        'ャ' => Some("-ya"@),
        'ヤ' => Some("ya"@),
        'ュ' => Some("-yu"@),
        'ル' => Some("ru"@),
        'レ' => Some("re"@),
        'ロ' => Some("ro"@),
        'ヮ' => Some("wa"@),
        'ワ' => Some("wa"@),
        'ヰ' => Some("wi"@),
        'ヲ' => Some("wo"@),
        'ン' => Some("n"@),
        'ヴ' => Some("vu"@),
        'ヵ' => Some("ka"@),
        'ヶ' => Some("ke"@),
        'ヱ' => Some("e"@),
        'ー' => Some(""@),
        '・' => Some(" "@),
        '、' => Some(","@),
        '。' => Some("."@),
        '　' => Some(" "@),
        _ => None,
    }
}

fn kana_to_romaji_char(c: char) -> (r: Option<&'static str>)
    ensures
        match r {
            Some(s) => spec_kana_to_romaji_char(c) == Some(s@),
            None => spec_kana_to_romaji_char(c) is None,
        },
{
    match c {
            'あ' => Some("a"),
            'い' => Some("i"),
            'う' => Some("u"),
            'え' => Some("e"),
            'お' => Some("o"),
            'か' => Some("ka"),
            'が' => Some("ga"),
            'き' => Some("ki"),
            'ぎ' => Some("gi"),
            'く' => Some("ku"),
            'ぐ' => Some("gu"),
            'け' => Some("ke"),
            'げ' => Some("ge"),
            'こ' => Some("ko"),
            'ご' => Some("go"),
            'さ' => Some("sa"),
            'ざ' => Some("za"),
            'し' => Some("shi"),
            'じ' => Some("ji"),
            'す' => Some("su"),
            'ず' => Some("zu"),
            'せ' => Some("se"),
            'ぜ' => Some("ze"),
            'そ' => Some("so"),
            'ぞ' => Some("zo"),
            'た' => Some("ta"),
            'だ' => Some("da"),
            'ち' => Some("chi"),
            'ぢ' => Some("ji"),
            'つ' => Some("tsu"),
            'づ' => Some("zu"),
            'て' => Some("te"),
            'で' => Some("de"),
            'と' => Some("to"),
            'ど' => Some("do"),
            'な' => Some("na"),
            'に' => Some("ni"),
            'ぬ' => Some("nu"),
            'ね' => Some("ne"),
            'の' => Some("no"),
            'は' => Some("ha"),
            'ば' => Some("ba"),
            'ぱ' => Some("pa"),
            'ひ' => Some("hi"),
            'び' => Some("bi"),
            'ぴ' => Some("pi"),
            'ふ' => Some("fu"),
            'ぶ' => Some("bu"),
            'ぷ' => Some("pu"),
            'へ' => Some("he"),
            'べ' => Some("be"),
            'ぺ' => Some("pe"),
            'ほ' => Some("ho"),
            'ぼ' => Some("bo"),
            'ぽ' => Some("po"),
            'ま' => Some("ma"),
            'み' => Some("mi"),
            'む' => Some("mu"),
            'め' => Some("me"),
            'も' => Some("mo"),
            'や' => Some("ya"),
            'ゆ' => Some("yu"),
            'よ' => Some("yo"),
            'ら' => Some("ra"),
            'り' => Some("ri"),
            'る' => Some("ru"),
            'れ' => Some("re"),
            'ろ' => Some("ro"),
            'わ' => Some("wa"),
            'を' => Some("wo"),
            'ん' => Some("n"),
            'ゔ' => Some("vu"),
            'ゐ' => Some("vi"),
            'ゑ' => Some("e"),
            'ゃ' => Some("-ya"),
            'ゅ' => Some("-yu"),
            'ょ' => Some("-yo"),
            'ぁ' => Some("a"),
            'ぅ' => Some("u"),
            'ぇ' => Some("e"),
            'ぉ' => Some("o"),
            'ぃ' => Some("i"),
            'っ' => Some("+"),
            'ゖ' => Some("ke"),
            'ゕ' => Some("ka"),
            'ゎ' => Some("wa"),
            'ァ' => Some("a"),
            'ア' => Some("a"),
            'ィ' => Some("i"),
            'イ' => Some("i"),
            'ゥ' => Some("u"),
            'ウ' => Some("u"),
            'ェ' => Some("e"),
            'エ' => Some("e"),
            'ォ' => Some("o"),
            'オ' => Some("o"),
            'カ' => Some("ka"),
            'ガ' => Some("ga"),
            'キ' => Some("ki"),
            'ギ' => Some("gi"),
            'ク' => Some("ku"),
            'グ' => Some("gu"),
            'ケ' => Some("ke"),
            'ゲ' => Some("ge"),
            'コ' => Some("ko"),
            'ゴ' => Some("go"),
            'サ' => Some("se"),
            'ザ' => Some("ze"),
            'シ' => Some("shi"),
            'ジ' => Some("ji"),
            'ス' => Some("su"),
            'ズ' => Some("zu"),
            'セ' => Some("se"),
            'ゼ' => Some("ze"),
            'ソ' => Some("so"),
            'ゾ' => Some("zo"),
            'タ' => Some("ta"),
            'ダ' => Some("da"),
            'チ' => Some("chi"),
            'ヂ' => Some("ji"),
            'ッ' => Some("+"),
            'ツ' => Some("tsu"),
            'ヅ' => Some("zu"),
            'テ' => Some("te"),
            'デ' => Some("de"),
            'ト' => Some("to"),
            'ド' => Some("do"),
            'ナ' => Some("na"),
            'ニ' => Some("ni"),
            'ヌ' => Some("nu"),
            'ネ' => Some("ne"),
            'ノ' => Some("no"),
            'ハ' => Some("ha"),
            'バ' => Some("ba"),
            'パ' => Some("pa"),
            'ヒ' => Some("hi"),
            'ビ' => Some("bi"),
            'ピ' => Some("pi"),
            'フ' => Some("fu"),
            'ブ' => Some("bu"),
            'プ' => Some("pu"),
            'ヘ' => Some("he"),
            'ベ' => Some("be"),
            'ペ' => Some("pe"),
            'ホ' => Some("ho"),
            'ボ' => Some("bo"),
            'ポ' => Some("po"),
            'マ' => Some("ma"),
            'ミ' => Some("mi"),
            'ム' => Some("mu"),
            'メ' => Some("me"),
            'モ' => Some("mo"),
            'ャ' => Some("-ya"),
            'ヤ' => Some("ya"),
            'ュ' => Some("-yu"),
            'ル' => Some("ru"),
            'レ' => Some("re"),
            'ロ' => Some("ro"),
            'ヮ' => Some("wa"),
            'ワ' => Some("wa"),
            'ヰ' => Some("wi"),
            'ヲ' => Some("wo"),
            'ン' => Some("n"),
            'ヴ' => Some("vu"),
            'ヵ' => Some("ka"),
            'ヶ' => Some("ke"),
            'ヱ' => Some("e"),
            'ー' => Some(""),
            '・' => Some(" "),
            '、' => Some(","),
            '。' => Some("."),
            '　' => Some(" "),
        _ => None,
    }
}
/// A consonant that doubles under the small tsu.
pub open spec fn is_soukun(c: char) -> bool {
    c == 'b' || c == 'c' || c == 'd' || c == 'f' || c == 'g' || c == 'h' || c == 'j' || c == 'k'
        || c == 'l' || c == 'm' || c == 'p' || c == 'r' || c == 's' || c == 't' || c == 'v' || c
        == 'w' || c == 'x' || c == 'y' || c == 'z'
}

fn soukun(c: char) -> (r: bool)
    ensures
        r == is_soukun(c),
{
    match c {
        'b' | 'c' | 'd' | 'f' | 'g' | 'h' | 'j' | 'k' | 'l' | 'm' | 'p' | 'r' | 's' | 't' | 'v'
        | 'w' | 'x' | 'y' | 'z' => true,
        _ => false,
    }
}

/// A character romaji input may hold: the lower case letters but q,
/// the hyphen and the apostrophe.
pub open spec fn is_romaji_char(c: char) -> bool {
    ('a' <= c && c <= 'p') || ('r' <= c && c <= 'z') || c == '-' || c == '\''
}

/// Whether every character of the input may appear in romaji.
pub open spec fn spec_romaji_allowed(s: Seq<char>) -> bool {
    forall|i: int| 0 <= i < s.len() ==> is_romaji_char(#[trigger] s[i])
}

fn romaji_allowed(word: &str) -> (r: bool)
    ensures
        r == spec_romaji_allowed(word@),
{
    let n = word.unicode_len();
    let mut i: usize = 0;
    while i < n
        invariant
            0 <= i <= n,
            n == word@.len(),
            forall|j: int| 0 <= j < i ==> is_romaji_char(#[trigger] word@[j]),
        decreases n - i,
    {
        let c = word.get_char(i);
        let ok = (('a' <= c && c <= 'p') || ('r' <= c && c <= 'z') || c == '-' || c == '\'');
        if !ok {
            return false;
        }
        i += 1;
    }
    true
}
pub open spec fn spec_single_katakana(c: char) -> Option<Seq<char>> {
    match c {
        'a' => Some("ア"@),
        'i' => Some("イ"@),
        'u' => Some("ウ"@),
        'e' => Some("エ"@),
        'o' => Some("オ"@),
        'n' => Some("ン"@),
        '-' => Some("ー"@),
        '\'' => Some(""@),
        _ => None,
    }
}

fn convert_single_letter(c: char) -> (r: Option<&'static str>)
    ensures
        match r {
            Some(s) => spec_single_katakana(c) == Some(s@),
            None => spec_single_katakana(c) is None,
        },
{
    match c {
            'a' => Some("ア"),
            'i' => Some("イ"),
            'u' => Some("ウ"),
            'e' => Some("エ"),
            'o' => Some("オ"),
            'n' => Some("ン"),
            '-' => Some("ー"),
            '\'' => Some(""),
        _ => None,
    }
}

pub open spec fn spec_double_katakana(c0: char, c1: char) -> Option<Seq<char>> {
    match (c0, c1) {
        ('x', 'a') => Some("ァ"@),
        ('x', 'i') => Some("ィ"@),
        ('x', 'u') => Some("ゥ"@),
        ('x', 'e') => Some("ェ"@),
        ('x', 'o') => Some("ォ"@),
        ('k', 'a') => Some("カ"@),
        ('k', 'i') => Some("キ"@),
        ('k', 'u') => Some("ク"@),
        ('k', 'e') => Some("ケ"@),
        ('k', 'o') => Some("コ"@),
        ('c', 'a') => Some("カ"@),
        ('c', 'u') => Some("ク"@),
        ('c', 'o') => Some("コ"@),
        ('g', 'a') => Some("ガ"@),
        ('g', 'i') => Some("ギ"@),
        ('g', 'u') => Some("グ"@),
        ('g', 'e') => Some("ゲ"@),
        ('g', 'o') => Some("ゴ"@),
        ('s', 'a') => Some("サ"@),
        ('s', 'i') => Some("シ"@),
        ('s', 'u') => Some("ス"@),
        ('s', 'e') => Some("セ"@),
        ('s', 'o') => Some("ソ"@),
        ('z', 'a') => Some("ザ"@),
        ('z', 'i') => Some("ジ"@),
        ('z', 'u') => Some("ズ"@),
        ('z', 'e') => Some("ゼ"@),
        ('z', 'o') => Some("ゾ"@),
        ('j', 'a') => Some("ジャ"@),
        ('j', 'i') => Some("ジ"@),
        ('j', 'u') => Some("ジュ"@),
        ('j', 'e') => Some("ジェ"@),
        ('j', 'o') => Some("ジョ"@),
        ('t', 'a') => Some("タ"@),
        ('t', 'i') => Some("チ"@),
        ('t', 'u') => Some("ツ"@),
        ('t', 'e') => Some("テ"@),
        ('t', 'o') => Some("ト"@),
        ('d', 'a') => Some("ダ"@),
        ('d', 'i') => Some("ヂ"@),
        ('d', 'u') => Some("ヅ"@),
        ('d', 'e') => Some("デ"@),
        ('d', 'o') => Some("ド"@),
        ('n', 'a') => Some("ナ"@),
        ('n', 'i') => Some("ニ"@),
        ('n', 'u') => Some("ヌ"@),
        ('n', 'e') => Some("ネ"@),
        ('n', 'o') => Some("ノ"@),
        ('h', 'a') => Some("ハ"@),
        ('h', 'i') => Some("ヒ"@),
        ('h', 'u') => Some("フ"@),
        ('h', 'e') => Some("ヘ"@),
        ('h', 'o') => Some("ホ"@),
        ('b', 'a') => Some("バ"@),
        ('b', 'i') => Some("ビ"@),
        ('b', 'u') => Some("ブ"@),
        ('b', 'e') => Some("ベ"@),
        ('b', 'o') => Some("ボ"@),
        ('p', 'a') => Some("パ"@),
        ('p', 'i') => Some("ピ"@),
        ('p', 'u') => Some("プ"@),
        ('p', 'e') => Some("ペ"@),
        ('p', 'o') => Some("ポ"@),
        ('v', 'a') => Some("ヴァ"@),
        ('v', 'i') => Some("ヴィ"@),
        ('v', 'u') => Some("ヴ"@),
        ('v', 'e') => Some("ヴェ"@),
        ('v', 'o') => Some("ヴォ"@),
        ('f', 'a') => Some("ファ"@),
        ('f', 'i') => Some("フィ"@),
        ('f', 'u') => Some("フ"@),
        ('f', 'e') => Some("フェ"@),
        ('f', 'o') => Some("フォ"@),
        ('m', 'a') => Some("マ"@),
        ('m', 'i') => Some("ミ"@),
        ('m', 'u') => Some("ム"@),
        ('m', 'e') => Some("メ"@),
        ('m', 'o') => Some("モ"@),
        ('y', 'a') => Some("ヤ"@),
        ('y', 'i') => Some("イ"@),
        ('y', 'u') => Some("ユ"@),
        ('y', 'e') => Some("イェ"@),
        ('y', 'o') => Some("ヨ"@),
        ('r', 'a') => Some("ラ"@),
        ('r', 'i') => Some("リ"@),
        ('r', 'u') => Some("ル"@),
        ('r', 'e') => Some("レ"@),
        ('r', 'o') => Some("ロ"@),
        ('l', 'a') => Some("ラ"@),
        ('l', 'i') => Some("リ"@),
        ('l', 'u') => Some("ル"@),
        ('l', 'e') => Some("レ"@),
        ('l', 'o') => Some("ロ"@),
        ('w', 'a') => Some("ワ"@),
        ('w', 'i') => Some("ヰ"@),
        ('w', 'u') => Some("ウ"@),
        ('w', 'e') => Some("ヱ"@),
        ('w', 'o') => Some("ヲ"@),
        ('n', 'n') => Some("ン"@),
        _ => None,
    }
}

fn convert_double_letter(c0: char, c1: char) -> (r: Option<&'static str>)
    ensures
        match r {
            Some(s) => spec_double_katakana(c0, c1) == Some(s@),
            None => spec_double_katakana(c0, c1) is None,
        },
{
    match (c0, c1) {
            ('x', 'a') => Some("ァ"),
            ('x', 'i') => Some("ィ"),
            ('x', 'u') => Some("ゥ"),
            ('x', 'e') => Some("ェ"),
            ('x', 'o') => Some("ォ"),
            ('k', 'a') => Some("カ"),
            ('k', 'i') => Some("キ"),
            ('k', 'u') => Some("ク"),
            ('k', 'e') => Some("ケ"),
            ('k', 'o') => Some("コ"),
            ('c', 'a') => Some("カ"),
            ('c', 'u') => Some("ク"),
            ('c', 'o') => Some("コ"),
            ('g', 'a') => Some("ガ"),
            ('g', 'i') => Some("ギ"),
            ('g', 'u') => Some("グ"),
            ('g', 'e') => Some("ゲ"),
            ('g', 'o') => Some("ゴ"),
            ('s', 'a') => Some("サ"),
            ('s', 'i') => Some("シ"),
            ('s', 'u') => Some("ス"),
            ('s', 'e') => Some("セ"),
            ('s', 'o') => Some("ソ"),
            ('z', 'a') => Some("ザ"),
            ('z', 'i') => Some("ジ"),
            ('z', 'u') => Some("ズ"),
            ('z', 'e') => Some("ゼ"),
            ('z', 'o') => Some("ゾ"),
            ('j', 'a') => Some("ジャ"),
            ('j', 'i') => Some("ジ"),
            ('j', 'u') => Some("ジュ"),
            ('j', 'e') => Some("ジェ"),
            ('j', 'o') => Some("ジョ"),
            ('t', 'a') => Some("タ"),
            ('t', 'i') => Some("チ"),
            ('t', 'u') => Some("ツ"),
            ('t', 'e') => Some("テ"),
            ('t', 'o') => Some("ト"),
            ('d', 'a') => Some("ダ"),
            ('d', 'i') => Some("ヂ"),
            ('d', 'u') => Some("ヅ"),
            ('d', 'e') => Some("デ"),
            ('d', 'o') => Some("ド"),
            ('n', 'a') => Some("ナ"),
            ('n', 'i') => Some("ニ"),
            ('n', 'u') => Some("ヌ"),
            ('n', 'e') => Some("ネ"),
            ('n', 'o') => Some("ノ"),
            ('h', 'a') => Some("ハ"),
            ('h', 'i') => Some("ヒ"),
            ('h', 'u') => Some("フ"),
            ('h', 'e') => Some("ヘ"),
            ('h', 'o') => Some("ホ"),
            ('b', 'a') => Some("バ"),
            ('b', 'i') => Some("ビ"),
            ('b', 'u') => Some("ブ"),
            ('b', 'e') => Some("ベ"),
            ('b', 'o') => Some("ボ"),
            ('p', 'a') => Some("パ"),
            ('p', 'i') => Some("ピ"),
            ('p', 'u') => Some("プ"),
            ('p', 'e') => Some("ペ"),
            ('p', 'o') => Some("ポ"),
            ('v', 'a') => Some("ヴァ"),
            ('v', 'i') => Some("ヴィ"),
            ('v', 'u') => Some("ヴ"),
            ('v', 'e') => Some("ヴェ"),
            ('v', 'o') => Some("ヴォ"),
            ('f', 'a') => Some("ファ"),
            ('f', 'i') => Some("フィ"),
            ('f', 'u') => Some("フ"),
            ('f', 'e') => Some("フェ"),
            ('f', 'o') => Some("フォ"),
            ('m', 'a') => Some("マ"),
            ('m', 'i') => Some("ミ"),
            ('m', 'u') => Some("ム"),
            ('m', 'e') => Some("メ"),
            ('m', 'o') => Some("モ"),
            ('y', 'a') => Some("ヤ"),
            ('y', 'i') => Some("イ"),
            ('y', 'u') => Some("ユ"),
            ('y', 'e') => Some("イェ"),
            ('y', 'o') => Some("ヨ"),
            ('r', 'a') => Some("ラ"),
            ('r', 'i') => Some("リ"),
            ('r', 'u') => Some("ル"),
            ('r', 'e') => Some("レ"),
            ('r', 'o') => Some("ロ"),
            ('l', 'a') => Some("ラ"),
            ('l', 'i') => Some("リ"),
            ('l', 'u') => Some("ル"),
            ('l', 'e') => Some("レ"),
            ('l', 'o') => Some("ロ"),
            ('w', 'a') => Some("ワ"),
            ('w', 'i') => Some("ヰ"),
            ('w', 'u') => Some("ウ"),
            ('w', 'e') => Some("ヱ"),
            ('w', 'o') => Some("ヲ"),
            ('n', 'n') => Some("ン"),
        _ => None,
    }
}

pub open spec fn spec_triple_katakana(c0: char, c1: char, c2: char) -> Option<Seq<char>> {
    match (c0, c1, c2) {
        ('t', 's', 'u') => Some("ツ"@),
        ('x', 'k', 'a') => Some("ヵ"@),
        ('x', 'k', 'e') => Some("ヶ"@),
        ('x', 'w', 'a') => Some("ヮ"@),
        ('x', 'y', 'a') => Some("ャ"@),
        ('x', 'y', 'u') => Some("ュ"@),
        ('x', 'y', 'o') => Some("ョ"@),
        ('k', 'y', 'a') => Some("キャ"@),
        ('k', 'y', 'i') => Some("キィ"@),
        ('k', 'y', 'u') => Some("キュ"@),
        ('k', 'y', 'e') => Some("キェ"@),
        ('k', 'y', 'o') => Some("キョ"@),
        ('g', 'y', 'a') => Some("ギャ"@),
        ('g', 'y', 'i') => Some("ギィ"@),
        ('g', 'y', 'u') => Some("ギュ"@),
        ('g', 'y', 'e') => Some("ギェ"@),
        ('g', 'y', 'o') => Some("ギョ"@),
        ('s', 'y', 'a') => Some("シャ"@),
        ('s', 'y', 'i') => Some("シィ"@),
        ('s', 'y', 'u') => Some("シュ"@),
        ('s', 'y', 'e') => Some("シェ"@),
        ('s', 'y', 'o') => Some("ショ"@),
        ('s', 'h', 'a') => Some("シャ"@),
        ('s', 'h', 'i') => Some("シ"@),
        ('s', 'h', 'u') => Some("シュ"@),
        ('s', 'h', 'e') => Some("シェ"@),
        ('s', 'h', 'o') => Some("ショ"@),
        ('z', 'y', 'a') => Some("ジャ"@),
        ('z', 'y', 'i') => Some("ジィ"@),
        ('z', 'y', 'u') => Some("ジュ"@),
        ('z', 'y', 'e') => Some("ジェ"@),
        ('z', 'y', 'o') => Some("ジョ"@),
        ('j', 'y', 'a') => Some("ジャ"@),
        ('j', 'y', 'i') => Some("ジィ"@),
        ('j', 'y', 'u') => Some("ジュ"@),
        ('j', 'y', 'e') => Some("ジェ"@),
        ('j', 'y', 'o') => Some("ジョ"@),
        ('t', 'y', 'a') => Some("チャ"@),
        ('t', 'y', 'i') => Some("チィ"@),
        ('t', 'y', 'u') => Some("チュ"@),
        ('t', 'y', 'e') => Some("チェ"@),
        ('t', 'y', 'o') => Some("チョ"@),
        ('c', 'y', 'a') => Some("チャ"@),
        ('c', 'y', 'i') => Some("チィ"@),
        ('c', 'y', 'u') => Some("チュ"@),
        ('c', 'y', 'e') => Some("チェ"@),
        ('c', 'y', 'o') => Some("チョ"@),
        ('c', 'h', 'a') => Some("チャ"@),
        ('c', 'h', 'i') => Some("チ"@),
        ('c', 'h', 'u') => Some("チュ"@),
        ('c', 'h', 'e') => Some("チェ"@),
        ('c', 'h', 'o') => Some("チョ"@),
        ('t', 'h', 'a') => Some("テャ"@),
        ('t', 'h', 'i') => Some("ティ"@),
        ('t', 'h', 'u') => Some("テュ"@),
        ('t', 'h', 'e') => Some("テェ"@),
        ('t', 'h', 'o') => Some("テョ"@),
        ('d', 'y', 'a') => Some("ヂャ"@),
        ('d', 'y', 'i') => Some("ヂィ"@),
        ('d', 'y', 'u') => Some("ヂュ"@),
        ('d', 'y', 'e') => Some("ヂェ"@),
        ('d', 'y', 'o') => Some("ヂョ"@),
        ('d', 'h', 'a') => Some("デャ"@),
        ('d', 'h', 'i') => Some("ディ"@),
        ('d', 'h', 'u') => Some("デュ"@),
        ('d', 'h', 'e') => Some("デェ"@),
        ('d', 'h', 'o') => Some("デョ"@),
        ('n', 'y', 'a') => Some("ニャ"@),
        ('n', 'y', 'i') => Some("ニィ"@),
        ('n', 'y', 'u') => Some("ニュ"@),
        ('n', 'y', 'e') => Some("ニェ"@),
        ('n', 'y', 'o') => Some("ニョ"@),
        ('h', 'y', 'a') => Some("ヒャ"@),
        ('h', 'y', 'i') => Some("ヒィ"@),
        ('h', 'y', 'u') => Some("ヒュ"@),
        ('h', 'y', 'e') => Some("ヒェ"@),
        ('h', 'y', 'o') => Some("ヒョ"@),
        ('b', 'y', 'a') => Some("ビャ"@),
        ('b', 'y', 'i') => Some("ビィ"@),
        ('b', 'y', 'u') => Some("ビュ"@),
        ('b', 'y', 'e') => Some("ビェ"@),
        ('b', 'y', 'o') => Some("ビョ"@),
        ('p', 'y', 'a') => Some("ピャ"@),
        ('p', 'y', 'i') => Some("ピィ"@),
        ('p', 'y', 'u') => Some("ピュ"@),
        ('p', 'y', 'e') => Some("ピェ"@),
        ('p', 'y', 'o') => Some("ピョ"@),
        ('m', 'y', 'a') => Some("ミャ"@),
        ('m', 'y', 'i') => Some("ミィ"@),
        ('m', 'y', 'u') => Some("ミュ"@),
        ('m', 'y', 'e') => Some("ミェ"@),
        ('m', 'y', 'o') => Some("ミョ"@),
        ('r', 'y', 'a') => Some("リャ"@),
        ('r', 'y', 'i') => Some("リィ"@),
        ('r', 'y', 'u') => Some("リュ"@),
        ('r', 'y', 'e') => Some("リェ"@),
        ('r', 'y', 'o') => Some("リョ"@),
        ('l', 'y', 'a') => Some("リャ"@),
        ('l', 'y', 'i') => Some("リィ"@),
        ('l', 'y', 'u') => Some("リュ"@),
        ('l', 'y', 'e') => Some("リェ"@),
        ('l', 'y', 'o') => Some("リョ"@),
        _ => None,
    }
}

fn convert_triple_letter(c0: char, c1: char, c2: char) -> (r: Option<&'static str>)
    ensures
        match r {
            Some(s) => spec_triple_katakana(c0, c1, c2) == Some(s@),
            None => spec_triple_katakana(c0, c1, c2) is None,
        },
{
    match (c0, c1, c2) {
            ('t', 's', 'u') => Some("ツ"),
            ('x', 'k', 'a') => Some("ヵ"),
            ('x', 'k', 'e') => Some("ヶ"),
            ('x', 'w', 'a') => Some("ヮ"),
            ('x', 'y', 'a') => Some("ャ"),
            ('x', 'y', 'u') => Some("ュ"),
            ('x', 'y', 'o') => Some("ョ"),
            ('k', 'y', 'a') => Some("キャ"),
            ('k', 'y', 'i') => Some("キィ"),
            ('k', 'y', 'u') => Some("キュ"),
            ('k', 'y', 'e') => Some("キェ"),
            ('k', 'y', 'o') => Some("キョ"),
            ('g', 'y', 'a') => Some("ギャ"),
            ('g', 'y', 'i') => Some("ギィ"),
            ('g', 'y', 'u') => Some("ギュ"),
            ('g', 'y', 'e') => Some("ギェ"),
            ('g', 'y', 'o') => Some("ギョ"),
            ('s', 'y', 'a') => Some("シャ"),
            ('s', 'y', 'i') => Some("シィ"),
            ('s', 'y', 'u') => Some("シュ"),
            ('s', 'y', 'e') => Some("シェ"),
            ('s', 'y', 'o') => Some("ショ"),
            ('s', 'h', 'a') => Some("シャ"),
            ('s', 'h', 'i') => Some("シ"),
            ('s', 'h', 'u') => Some("シュ"),
            ('s', 'h', 'e') => Some("シェ"),
            ('s', 'h', 'o') => Some("ショ"),
            ('z', 'y', 'a') => Some("ジャ"),
            ('z', 'y', 'i') => Some("ジィ"),
            ('z', 'y', 'u') => Some("ジュ"),
            ('z', 'y', 'e') => Some("ジェ"),
            ('z', 'y', 'o') => Some("ジョ"),
            ('j', 'y', 'a') => Some("ジャ"),
            ('j', 'y', 'i') => Some("ジィ"),
            ('j', 'y', 'u') => Some("ジュ"),
            ('j', 'y', 'e') => Some("ジェ"),
            ('j', 'y', 'o') => Some("ジョ"),
            ('t', 'y', 'a') => Some("チャ"),
            ('t', 'y', 'i') => Some("チィ"),
            ('t', 'y', 'u') => Some("チュ"),
            ('t', 'y', 'e') => Some("チェ"),
            ('t', 'y', 'o') => Some("チョ"),
            ('c', 'y', 'a') => Some("チャ"),
            ('c', 'y', 'i') => Some("チィ"),
            ('c', 'y', 'u') => Some("チュ"),
            ('c', 'y', 'e') => Some("チェ"),
            ('c', 'y', 'o') => Some("チョ"),
            ('c', 'h', 'a') => Some("チャ"),
            ('c', 'h', 'i') => Some("チ"),
            ('c', 'h', 'u') => Some("チュ"),
            ('c', 'h', 'e') => Some("チェ"),
            ('c', 'h', 'o') => Some("チョ"),
            ('t', 'h', 'a') => Some("テャ"),
            ('t', 'h', 'i') => Some("ティ"),
            ('t', 'h', 'u') => Some("テュ"),
            ('t', 'h', 'e') => Some("テェ"),
            ('t', 'h', 'o') => Some("テョ"),
            ('d', 'y', 'a') => Some("ヂャ"),
            ('d', 'y', 'i') => Some("ヂィ"),
            ('d', 'y', 'u') => Some("ヂュ"),
            ('d', 'y', 'e') => Some("ヂェ"),
            ('d', 'y', 'o') => Some("ヂョ"),
            ('d', 'h', 'a') => Some("デャ"),
            ('d', 'h', 'i') => Some("ディ"),
            ('d', 'h', 'u') => Some("デュ"),
            ('d', 'h', 'e') => Some("デェ"),
            ('d', 'h', 'o') => Some("デョ"),
            ('n', 'y', 'a') => Some("ニャ"),
            ('n', 'y', 'i') => Some("ニィ"),
            ('n', 'y', 'u') => Some("ニュ"),
            ('n', 'y', 'e') => Some("ニェ"),
            ('n', 'y', 'o') => Some("ニョ"),
            ('h', 'y', 'a') => Some("ヒャ"),
            ('h', 'y', 'i') => Some("ヒィ"),
            ('h', 'y', 'u') => Some("ヒュ"),
            ('h', 'y', 'e') => Some("ヒェ"),
            ('h', 'y', 'o') => Some("ヒョ"),
            ('b', 'y', 'a') => Some("ビャ"),
            ('b', 'y', 'i') => Some("ビィ"),
            ('b', 'y', 'u') => Some("ビュ"),
            ('b', 'y', 'e') => Some("ビェ"),
            ('b', 'y', 'o') => Some("ビョ"),
            ('p', 'y', 'a') => Some("ピャ"),
            ('p', 'y', 'i') => Some("ピィ"),
            ('p', 'y', 'u') => Some("ピュ"),
            ('p', 'y', 'e') => Some("ピェ"),
            ('p', 'y', 'o') => Some("ピョ"),
            ('m', 'y', 'a') => Some("ミャ"),
            ('m', 'y', 'i') => Some("ミィ"),
            ('m', 'y', 'u') => Some("ミュ"),
            ('m', 'y', 'e') => Some("ミェ"),
            ('m', 'y', 'o') => Some("ミョ"),
            ('r', 'y', 'a') => Some("リャ"),
            ('r', 'y', 'i') => Some("リィ"),
            ('r', 'y', 'u') => Some("リュ"),
            ('r', 'y', 'e') => Some("リェ"),
            ('r', 'y', 'o') => Some("リョ"),
            ('l', 'y', 'a') => Some("リャ"),
            ('l', 'y', 'i') => Some("リィ"),
            ('l', 'y', 'u') => Some("リュ"),
            ('l', 'y', 'e') => Some("リェ"),
            ('l', 'y', 'o') => Some("リョ"),
        _ => None,
    }
}
/// Whether each character of the input is in the transliteration table.
pub open spec fn spec_kana_mapped(s: Seq<char>) -> bool {
    forall|i: int| 0 <= i < s.len() ==> spec_kana_to_romaji_char(#[trigger] s[i]) is Some
}

/// The concatenation of the per-character transliterations.
pub open spec fn spec_kana_concat(s: Seq<char>) -> Seq<char>
    decreases s.len(),
{
    if s.len() == 0 {
        Seq::empty()
    } else {
        spec_kana_to_romaji_char(s[0]).unwrap() + spec_kana_concat(s.drop_first())
    }
}

/// The first rewrite pass: any character directly before a hyphen is
/// deleted together with the hyphen, consuming small ya, yu and yo
/// contractions.
pub open spec fn strip_contractions(s: Seq<char>) -> Seq<char>
    decreases s.len(),
{
    if s.len() >= 2 && s[1] == '-' {
        strip_contractions(s.skip(2))
    } else if s.len() >= 1 {
        seq![s[0]] + strip_contractions(s.skip(1))
    } else {
        Seq::empty()
    }
}

/// A word character, as the gemination rewrite understands it.
pub open spec fn is_word_char(c: char) -> bool {
    ('0' <= c && c <= '9') || ('A' <= c && c <= 'Z') || ('a' <= c && c <= 'z') || c == '_'
}

/// The second rewrite pass: a gemination mark followed by a word
/// character becomes that character doubled.
pub open spec fn expand_gemination(s: Seq<char>) -> Seq<char>
    decreases s.len(),
{
    if s.len() >= 2 && s[0] == '+' && is_word_char(s[1]) {
        seq![s[1], s[1]] + expand_gemination(s.skip(2))
    } else if s.len() >= 1 {
        seq![s[0]] + expand_gemination(s.skip(1))
    } else {
        Seq::empty()
    }
}

/// What the kana-to-romaji conversion yields: per-character mapping,
/// then the contraction pass, then the gemination pass.
pub open spec fn spec_kana_to_romaji(s: Seq<char>) -> Seq<char> {
    expand_gemination(strip_contractions(spec_kana_concat(s)))
}

/// Transliterates a kana string to romaji. Every character must be in
/// the table.
pub fn kana_to_romaji(word: &str) -> (r: String)
    requires
        spec_kana_mapped(word@),
    ensures
        r@ == spec_kana_to_romaji(word@),
{
    let n = word.unicode_len();
    let mut mapped = String::new();
    let mut i: usize = 0;
    proof {
        assert(word@.skip(0) =~= word@);
        assert(mapped@ + spec_kana_concat(word@) =~= spec_kana_concat(word@));
    }
    while i < n
        invariant
            0 <= i <= n,
            n == word@.len(),
            spec_kana_mapped(word@),
            spec_kana_concat(word@) == mapped@ + spec_kana_concat(word@.skip(i as int)),
        decreases n - i,
    {
        let c = word.get_char(i);
        let ghost pre = mapped@;
        let ghost rest = word@.skip(i as int);
        proof {
            assert(rest[0] == word@[i as int]);
            assert(rest.drop_first() =~= word@.skip(i as int + 1));
            assert(spec_kana_to_romaji_char(word@[i as int]) is Some);
        }
        match kana_to_romaji_char(c) {
            Some(s) => {
                mapped.append(s);
                proof {
                    assert((pre + s@) + spec_kana_concat(word@.skip(i as int + 1)) =~= pre + (s@
                        + spec_kana_concat(word@.skip(i as int + 1))));
                }
            },
            None => {
                proof {
                    assert(false);
                }
            },
        }
        i += 1;
    }
    proof {
        assert(word@.skip(n as int) =~= Seq::<char>::empty());
        assert(mapped@ + Seq::<char>::empty() =~= mapped@);
    }
    // The contraction pass.
    let m = mapped.as_str();
    let mlen = m.unicode_len();
    let mut stripped = String::new();
    let mut i: usize = 0;
    proof {
        assert(m@.skip(0) =~= m@);
        assert(stripped@ + strip_contractions(m@) =~= strip_contractions(m@));
    }
    while i < mlen
        invariant
            0 <= i <= mlen,
            mlen == m@.len(),
            strip_contractions(m@) == stripped@ + strip_contractions(m@.skip(i as int)),
        decreases mlen - i,
    {
        let ghost pre = stripped@;
        let ghost rest = m@.skip(i as int);
        proof {
            assert(rest[0] == m@[i as int]);
            assert(rest.skip(1) =~= m@.skip(i as int + 1));
            if i + 1 < mlen {
                assert(rest[1] == m@[i as int + 1]);
                assert(rest.skip(2) =~= m@.skip(i as int + 2));
            }
        }
        if i + 1 < mlen && m.get_char(i + 1) == '-' {
            i += 2;
        } else {
            push_char(&mut stripped, m.get_char(i));
            proof {
                assert(stripped@ =~= pre + seq![m@[i as int]]);
                assert((pre + seq![m@[i as int]]) + strip_contractions(m@.skip(i as int + 1))
                    =~= pre + (seq![m@[i as int]] + strip_contractions(m@.skip(i as int + 1))));
            }
            i += 1;
        }
    }
    proof {
        assert(m@.skip(mlen as int) =~= Seq::<char>::empty());
        assert(stripped@ + Seq::<char>::empty() =~= stripped@);
    }
    // The gemination pass.
    let t = stripped.as_str();
    let tlen = t.unicode_len();
    let mut out = String::new();
    let mut i: usize = 0;
    proof {
        assert(t@.skip(0) =~= t@);
        assert(out@ + expand_gemination(t@) =~= expand_gemination(t@));
    }
    while i < tlen
        invariant
            0 <= i <= tlen,
            tlen == t@.len(),
            expand_gemination(t@) == out@ + expand_gemination(t@.skip(i as int)),
        decreases tlen - i,
    {
        let ghost pre = out@;
        let ghost rest = t@.skip(i as int);
        proof {
            assert(rest[0] == t@[i as int]);
            assert(rest.skip(1) =~= t@.skip(i as int + 1));
            if i + 1 < tlen {
                assert(rest[1] == t@[i as int + 1]);
                assert(rest.skip(2) =~= t@.skip(i as int + 2));
            }
        }
        let c0 = t.get_char(i);
        let doubled = if i + 1 < tlen {
            let c1 = t.get_char(i + 1);
            if c0 == '+' && (('0' <= c1 && c1 <= '9') || ('A' <= c1 && c1 <= 'Z') || ('a' <= c1
                && c1 <= 'z') || c1 == '_') {
                Some(c1)
            } else {
                None
            }
        } else {
            None
        };
        match doubled {
            Some(c1) => {
                push_char(&mut out, c1);
                push_char(&mut out, c1);
                proof {
                    assert(out@ =~= pre + seq![c1, c1]);
                    assert((pre + seq![c1, c1]) + expand_gemination(t@.skip(i as int + 2)) =~= pre
                        + (seq![c1, c1] + expand_gemination(t@.skip(i as int + 2))));
                }
                i += 2;
            },
            None => {
                push_char(&mut out, c0);
                proof {
                    assert(out@ =~= pre + seq![c0]);
                    assert((pre + seq![c0]) + expand_gemination(t@.skip(i as int + 1)) =~= pre + (
                    seq![c0] + expand_gemination(t@.skip(i as int + 1))));
                }
                i += 1;
            },
        }
    }
    proof {
        assert(t@.skip(tlen as int) =~= Seq::<char>::empty());
        assert(out@ + Seq::<char>::empty() =~= out@);
    }
    out
}

/// What the romaji scanner yields: at each position it tries, in order,
/// a doubled gemination consonant, the two letter table, the three
/// letter table, the one letter table, and the four letter small tsu;
/// any position where all fail makes the whole conversion fail.
pub open spec fn spec_romaji_to_katakana(s: Seq<char>) -> Option<Seq<char>>
    decreases s.len(),
{
    if s.len() == 0 {
        Some(Seq::empty())
    } else if s.len() >= 2 && s[1] == s[0] && is_soukun(s[0]) {
        match spec_romaji_to_katakana(s.skip(1)) {
            Some(rest) => Some("\u{30C3}"@ + rest),
            None => None,
        }
    } else if s.len() >= 2 && spec_double_katakana(s[0], s[1]) is Some {
        match spec_romaji_to_katakana(s.skip(2)) {
            Some(rest) => Some(spec_double_katakana(s[0], s[1]).unwrap() + rest),
            None => None,
        }
    } else if s.len() >= 3 && spec_triple_katakana(s[0], s[1], s[2]) is Some {
        match spec_romaji_to_katakana(s.skip(3)) {
            Some(rest) => Some(spec_triple_katakana(s[0], s[1], s[2]).unwrap() + rest),
            None => None,
        }
    } else if spec_single_katakana(s[0]) is Some {
        match spec_romaji_to_katakana(s.skip(1)) {
            Some(rest) => Some(spec_single_katakana(s[0]).unwrap() + rest),
            None => None,
        }
    } else if s.len() >= 4 && s[0] == 'x' && s[1] == 't' && s[2] == 's' && s[3] == 'u' {
        match spec_romaji_to_katakana(s.skip(4)) {
            Some(rest) => Some("\u{30C3}"@ + rest),
            None => None,
        }
    } else {
        None
    }
}

/// Converts romaji to katakana by greedy longest match over the tables.
/// Fails on a character outside the romaji alphabet or a position no
/// table covers.
pub fn romaji_to_katakana(word: &str) -> (r: Result<String, NotConvertibleError>)
    ensures
        r is Ok <==> (spec_romaji_allowed(word@) && spec_romaji_to_katakana(word@) is Some),
        r matches Ok(k) ==> Some(k@) == spec_romaji_to_katakana(word@),
        r matches Err(e) ==> e.word@ == word@,
{
    if !romaji_allowed(word) {
        return Err(NotConvertibleError::new(word));
    }
    let n = word.unicode_len();
    let mut out = String::new();
    let mut i: usize = 0;
    proof {
        assert(word@.skip(0) =~= word@);
        assert(out@ + Seq::<char>::empty() =~= out@);
    }
    while i < n
        invariant
            0 <= i <= n,
            n == word@.len(),
            spec_romaji_allowed(word@),
            match spec_romaji_to_katakana(word@.skip(i as int)) {
                Some(rest) => spec_romaji_to_katakana(word@) == Some(out@ + rest),
                None => spec_romaji_to_katakana(word@) is None,
            },
        decreases n - i,
    {
        let ghost pre = out@;
        let ghost rest = word@.skip(i as int);
        proof {
            assert(rest[0] == word@[i as int]);
            assert(rest.skip(1) =~= word@.skip(i as int + 1));
            if i + 1 < n {
                assert(rest[1] == word@[i as int + 1]);
                assert(rest.skip(2) =~= word@.skip(i as int + 2));
            }
            if n - i >= 3 {
                assert(rest[2] == word@[i as int + 2]);
                assert(rest.skip(3) =~= word@.skip(i as int + 3));
            }
            if n - i >= 4 {
                assert(rest[3] == word@[i as int + 3]);
                assert(rest.skip(4) =~= word@.skip(i as int + 4));
            }
        }
        let c0 = word.get_char(i);
        if i + 1 < n {
            let c1 = word.get_char(i + 1);
            if c1 == c0 && soukun(c0) {
                out.append("\u{30C3}");
                proof {
                    lemma_seq_concat_assoc(pre, "\u{30C3}"@, word@.skip(i as int + 1));
                }
                i += 1;
            } else if let Some(hit) = convert_double_letter(c0, c1) {
                out.append(hit);
                proof {
                    lemma_seq_concat_assoc(pre, hit@, word@.skip(i as int + 2));
                }
                i += 2;
            } else {
                let triple = if n - i >= 3 {
                    convert_triple_letter(c0, c1, word.get_char(i + 2))
                } else {
                    None
                };
                if let Some(hit) = triple {
                    out.append(hit);
                    proof {
                        lemma_seq_concat_assoc(pre, hit@, word@.skip(i as int + 3));
                    }
                    i += 3;
                } else if let Some(hit) = convert_single_letter(c0) {
                    out.append(hit);
                    proof {
                        lemma_seq_concat_assoc(pre, hit@, word@.skip(i as int + 1));
                    }
                    i += 1;
                } else {
                    let quad = n - i >= 4 && c0 == 'x' && c1 == 't' && word.get_char(i + 2) == 's'
                        && word.get_char(i + 3) == 'u';
                    if quad {
                        out.append("\u{30C3}");
                        proof {
                            lemma_seq_concat_assoc(pre, "\u{30C3}"@, word@.skip(i as int + 4));
                        }
                        i += 4;
                    } else {
                        return Err(NotConvertibleError::new(word));
                    }
                }
            }
        } else {
            if let Some(hit) = convert_single_letter(c0) {
                out.append(hit);
                proof {
                    lemma_seq_concat_assoc(pre, hit@, word@.skip(i as int + 1));
                }
                i += 1;
            } else {
                return Err(NotConvertibleError::new(word));
            }
        }
    }
    proof {
        assert(word@.skip(n as int) =~= Seq::<char>::empty());
        assert(out@ + Seq::<char>::empty() =~= out@);
    }
    Ok(out)
}

proof fn lemma_seq_concat_assoc(a: Seq<char>, b: Seq<char>, c: Seq<char>)
    ensures
        (a + b) + c == a + (b + c),
{
    assert((a + b) + c =~= a + (b + c));
}

/// Whether every character lies in the shiftable kana block.
pub open spec fn spec_all_in_kana_range(s: Seq<char>) -> bool {
    forall|i: int| 0 <= i < s.len() ==> in_kana_range(#[trigger] s[i])
}

/// The character 0x60 code points below the given one.
pub open spec fn shift_char(c: char) -> char {
    (((c as int) - 0x60) as u32) as char
}

/// In the kana block the shifted character's code point is exactly the
/// original's minus the fixed offset.
pub proof fn lemma_shift_char_is_codepoint_shift(c: char)
    requires
        in_kana_range(c),
    ensures
        shift_char(c) as int == c as int - 0x60,
{
    broadcast use vstd::utf8::char_u32_cast;
    broadcast use vstd::utf8::char_is_scalar;

    let u = ((c as int) - 0x60) as u32;
    assert(u < 0xD800);
}

/// What the katakana-to-hiragana conversion yields: each character
/// shifted down by the fixed offset, or nothing when some character
/// lies outside the kana block.
pub open spec fn spec_katakana_to_hiragana(s: Seq<char>) -> Option<Seq<char>> {
    if spec_all_in_kana_range(s) {
        Some(s.map_values(|c: char| shift_char(c)))
    } else {
        None
    }
}

/// Converts katakana to hiragana by shifting each character down by the
/// fixed offset; any character outside the kana block fails the whole
/// conversion.
pub fn katakana_to_hiragana(word: &str) -> (r: Result<String, NotConvertibleError>)
    ensures
        r is Ok <==> spec_katakana_to_hiragana(word@) is Some,
        r matches Ok(h) ==> Some(h@) == spec_katakana_to_hiragana(word@),
        r matches Ok(h) ==> h@.len() == word@.len() && forall|i: int|
            0 <= i < word@.len() ==> #[trigger] h@[i] as int == word@[i] as int - 0x60,
        r matches Err(e) ==> e.word@ == word@,
{
    let n = word.unicode_len();
    let mut out = String::new();
    let mut i: usize = 0;
    while i < n
        invariant
            0 <= i <= n,
            n == word@.len(),
            out@.len() == i,
            forall|j: int| 0 <= j < i ==> in_kana_range(#[trigger] word@[j]),
            forall|j: int| 0 <= j < i ==> #[trigger] out@[j] == shift_char(word@[j]),
        decreases n - i,
    {
        let c = word.get_char(i);
        let u = c as u32;
        if !(0x3041 <= u && u <= 0x30fe) {
            proof {
                assert(!in_kana_range(word@[i as int]));
                assert(!spec_all_in_kana_range(word@));
            }
            return Err(NotConvertibleError::new(word));
        }
        let shifted = katakana_to_hiragana_char(c);
        push_char(&mut out, shifted);
        proof {
            lemma_shift_char_is_codepoint_shift(c);
            lemma_char_injective(shifted, shift_char(c));
        }
        i += 1;
    }
    proof {
        assert(spec_all_in_kana_range(word@));
        assert(out@ =~= word@.map_values(|c: char| shift_char(c)));
        assert(forall|j: int|
            0 <= j < word@.len() ==> #[trigger] out@[j] as int == word@[j] as int - 0x60) by {
            assert(forall|j: int| 0 <= j < word@.len() ==> in_kana_range(#[trigger] word@[j]));
            assert forall|j: int| 0 <= j < word@.len() implies #[trigger] out@[j] as int
                == word@[j] as int - 0x60 by {
                lemma_shift_char_is_codepoint_shift(word@[j]);
            }
        }
    }
    Ok(out)
}

/// Katakana to hiragana is a code point shift: on a one character
/// string in the kana block the conversion yields exactly the character
/// 0x60 code points below.
pub proof fn lemma_katakana_to_hiragana_is_codepoint_shift(c: char)
    requires
        in_kana_range(c),
    ensures
        spec_katakana_to_hiragana(seq![c]) matches Some(h) && h =~= seq![shift_char(c)]
            && shift_char(c) as int == c as int - 0x60,
{
    let s = seq![c];
    assert(spec_all_in_kana_range(s)) by {
        assert(forall|i: int| 0 <= i < s.len() ==> s[i] == c);
    }
    assert(s.map_values(|x: char| shift_char(x))[0] == shift_char(c));
    lemma_shift_char_is_codepoint_shift(c);
}

/// What the romaji-to-hiragana conversion yields: romaji to katakana,
/// then katakana to hiragana.
pub open spec fn spec_romaji_to_hiragana(s: Seq<char>) -> Option<Seq<char>> {
    match spec_romaji_to_katakana(s) {
        Some(k) => spec_katakana_to_hiragana(k),
        None => None,
    }
}

/// Converts romaji to hiragana by composing the two conversions.
pub fn romaji_to_hiragana(word: &str) -> (r: Result<String, NotConvertibleError>)
    ensures
        r is Ok <==> (spec_romaji_allowed(word@) && spec_romaji_to_hiragana(word@) is Some),
        r matches Ok(h) ==> Some(h@) == spec_romaji_to_hiragana(word@),
        r matches Err(e) ==> e.word@ == word@,
{
    match romaji_to_katakana(word) {
        Ok(katakana) => match katakana_to_hiragana(katakana.as_str()) {
            Ok(hiragana) => Ok(hiragana),
            Err(_) => Err(NotConvertibleError::new(word)),
        },
        Err(e) => Err(e),
    }
}


} // verus!
