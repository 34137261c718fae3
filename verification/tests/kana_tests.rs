use kanjidict::kana::kana_to_romaji;
use kanjidict::kana::katakana_to_hiragana;
use kanjidict::kana::romaji_to_hiragana;
use kanjidict::kana::romaji_to_katakana;

#[test]
fn test_romaji_to_hiragana() {
    assert_eq!(romaji_to_hiragana("").unwrap(), "");
    assert_eq!(romaji_to_hiragana("sayonara").unwrap(), "さよなら");
    assert_eq!(romaji_to_hiragana("tsukue").unwrap(), "つくえ");
    assert_eq!(romaji_to_hiragana("tukue").unwrap(), "つくえ");
    assert_eq!(romaji_to_hiragana("kinnyoubi").unwrap(), "きんようび");
    assert_eq!(romaji_to_hiragana("kin'youbi").unwrap(), "きんようび");
    assert_eq!(romaji_to_hiragana("konnya").unwrap(), "こんや");
    assert_eq!(romaji_to_hiragana("konnnichi").unwrap(), "こんにち");
    assert_eq!(romaji_to_hiragana("kaetta").unwrap(), "かえった");
    assert_eq!(romaji_to_hiragana("kon'nichiha").unwrap(), "こんにちは");
    assert_eq!(romaji_to_hiragana("arigatou").unwrap(), "ありがとう");
    assert_eq!(romaji_to_hiragana("ohayou").unwrap(), "おはよう");
    assert_eq!(romaji_to_hiragana("nihon").unwrap(), "にほん");
    assert_eq!(romaji_to_hiragana("kyou").unwrap(), "きょう");
    assert_eq!(romaji_to_hiragana("gakkou").unwrap(), "がっこう");
    assert_eq!(romaji_to_hiragana("ryokou").unwrap(), "りょこう");
    assert_eq!(romaji_to_hiragana("shashin").unwrap(), "しゃしん");
    assert_eq!(romaji_to_hiragana("chikatetsu").unwrap(), "ちかてつ");
    assert_eq!(romaji_to_hiragana("jyuusho").unwrap(), "じゅうしょ");
    assert_eq!(romaji_to_hiragana("fuji").unwrap(), "ふじ");
    assert_eq!(romaji_to_hiragana("boxtsuti").unwrap(), "ぼっち");
}

#[test]
fn test_romaji_to_katakana() {
    assert_eq!(romaji_to_katakana("konnbann").unwrap(), "コンバン");
    assert_eq!(romaji_to_katakana("tsukue").unwrap(), "ツクエ");
    assert_eq!(romaji_to_katakana("tukue").unwrap(), "ツクエ");
    assert_eq!(romaji_to_katakana("kinnyoubi").unwrap(), "キンヨウビ");
    assert_eq!(romaji_to_katakana("kin'youbi").unwrap(), "キンヨウビ");
    assert_eq!(romaji_to_katakana("konnya").unwrap(), "コンヤ");
    assert_eq!(romaji_to_katakana("konnnichi").unwrap(), "コンニチ");
    assert_eq!(romaji_to_katakana("kaetta").unwrap(), "カエッタ");
    assert_eq!(romaji_to_katakana("arigatou").unwrap(), "アリガトウ");
    assert_eq!(romaji_to_katakana("ohayou").unwrap(), "オハヨウ");
    assert_eq!(romaji_to_katakana("nihon").unwrap(), "ニホン");
    assert_eq!(romaji_to_katakana("kyou").unwrap(), "キョウ");
    assert_eq!(romaji_to_katakana("gakkou").unwrap(), "ガッコウ");
    assert_eq!(romaji_to_katakana("ryokou").unwrap(), "リョコウ");
    assert_eq!(romaji_to_katakana("shashin").unwrap(), "シャシン");
    assert_eq!(romaji_to_katakana("chikatetsu").unwrap(), "チカテツ");
    assert_eq!(romaji_to_katakana("jyuusho").unwrap(), "ジュウショ");
    assert_eq!(romaji_to_katakana("fuji").unwrap(), "フジ");
}

#[test]
fn test_katakana_to_hiragana() {
    assert_eq!(katakana_to_hiragana("サヨナラ").unwrap(), "さよなら");
    assert_eq!(katakana_to_hiragana("アリガトウ").unwrap(), "ありがとう");
    assert_eq!(katakana_to_hiragana("オハヨウ").unwrap(), "おはよう");
    assert_eq!(katakana_to_hiragana("ニホン").unwrap(), "にほん");
    assert_eq!(katakana_to_hiragana("キョウ").unwrap(), "きょう");
    assert_eq!(katakana_to_hiragana("ガッコウ").unwrap(), "がっこう");
    assert_eq!(katakana_to_hiragana("リョコウ").unwrap(), "りょこう");
    assert_eq!(katakana_to_hiragana("シャシン").unwrap(), "しゃしん");
    assert_eq!(katakana_to_hiragana("チカテツ").unwrap(), "ちかてつ");
    assert_eq!(katakana_to_hiragana("ジュウショ").unwrap(), "じゅうしょ");
    assert_eq!(katakana_to_hiragana("フジ").unwrap(), "ふじ");
}

#[test]
fn katakana_to_hiragana_rejects_other_scripts() {
    assert!(katakana_to_hiragana("abc").is_err());
    assert!(katakana_to_hiragana("サヨナラ!").is_err());
}

#[test]
fn romaji_to_katakana_rejects_bad_characters() {
    assert!(romaji_to_katakana("qq").is_err());
    assert!(romaji_to_katakana("Hello").is_err());
    assert!(romaji_to_katakana("ka na").is_err());
    let failed = romaji_to_katakana("xz");
    assert!(failed.is_err());
    assert_eq!(failed.unwrap_err().word, "xz");
}

#[test]
fn kana_to_romaji_inverts_common_syllables() {
    assert_eq!(kana_to_romaji("きょう"), "kyou");
    assert_eq!(kana_to_romaji("がっこう"), "gakkou");
    assert_eq!(kana_to_romaji("コンバン"), "konban");
    assert_eq!(kana_to_romaji("しゃしん"), "shyashin");
}

#[test]
fn round_trip_through_kana_reconverts_to_the_same_katakana() {
    for input in ["konnbann", "nihon", "kaetta", "gakkou", "tsukue"] {
        let katakana = romaji_to_katakana(input).unwrap();
        let romaji_again = kana_to_romaji(&katakana);
        assert_eq!(romaji_to_katakana(&romaji_again).unwrap(), katakana);
    }
}
