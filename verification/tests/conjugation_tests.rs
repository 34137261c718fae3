use kanjidict::adjective::AdjectiveCategory;
use kanjidict::adjective::generate_all_adjective_conjugations;
use kanjidict::conjugation::GrammaticalForm;
use kanjidict::conjugation::VerbCategory;
use kanjidict::conjugation::VerbConjugation;
use kanjidict::conjugation::generate_all_verb_conjugations;
use kanjidict::conjugation::polite_imperative;

fn find_form<'a>(forms: &'a [VerbConjugation], features: &[GrammaticalForm]) -> &'a VerbConjugation {
    forms
        .iter()
        .find(|c| c.grammatical_forms == features)
        .expect("the requested form should be generated")
}

#[test]
fn ichidan_verb_conjugates() {
    let tags = vec!["v1".to_string()];
    let forms = generate_all_verb_conjugations("食べる", "たべる", &tags);
    assert_eq!(forms.len(), 52);

    let negative = find_form(&forms, &[GrammaticalForm::Negative]);
    assert_eq!(negative.kanji_form, "食べない");
    assert_eq!(negative.kana_form, "たべない");

    let past = find_form(&forms, &[GrammaticalForm::Past]);
    assert_eq!(past.kanji_form, "食べた");
    assert_eq!(past.kana_form, "たべた");

    let te = find_form(&forms, &[GrammaticalForm::TeForm]);
    assert_eq!(te.kanji_form, "食べて");
    assert_eq!(te.kana_form, "たべて");

    let polite = find_form(&forms, &[GrammaticalForm::Polite]);
    assert_eq!(polite.kanji_form, "食べます");
    assert_eq!(polite.kana_form, "たべます");

    let long = find_form(
        &forms,
        &[
            GrammaticalForm::Causative,
            GrammaticalForm::Passive,
            GrammaticalForm::Past,
            GrammaticalForm::Negative,
        ],
    );
    assert_eq!(long.kanji_form, "食べさせられなかった");
    assert_eq!(long.kana_form, "たべさせられなかった");
}

#[test]
fn irregular_kuru_uses_the_reading_branch() {
    let tags = vec!["vk".to_string()];
    let forms = generate_all_verb_conjugations("来る", "くる", &tags);

    let negative = find_form(&forms, &[GrammaticalForm::Negative]);
    assert_eq!(negative.kanji_form, "来ない");
    assert_eq!(negative.kana_form, "こない");

    let past = find_form(&forms, &[GrammaticalForm::Past]);
    assert_eq!(past.kanji_form, "来た");
    assert_eq!(past.kana_form, "きた");

    let polite = find_form(&forms, &[GrammaticalForm::Polite]);
    assert_eq!(polite.kanji_form, "来ます");
    assert_eq!(polite.kana_form, "きます");
}

#[test]
fn adjective_ii_conjugates_with_the_two_character_stem() {
    let tags = vec!["adj-ix".to_string()];
    let forms = generate_all_adjective_conjugations("いい", "", &tags).unwrap();
    assert_eq!(forms.len(), 5);
    assert_eq!(forms[0].kanji_form, "よくない");
    assert_eq!(forms[1].kanji_form, "よかった");
    assert_eq!(forms[2].kanji_form, "よくて");
    assert_eq!(forms[3].kanji_form, "よく");
    assert_eq!(forms[4].kanji_form, "よくなかった");
    assert_eq!(forms[3].grammatical_forms, vec![GrammaticalForm::Adverbial]);
    assert_eq!(forms[2].grammatical_forms, vec![GrammaticalForm::TeForm]);
}

#[test]
fn plain_adjective_eats_one_character() {
    let tags = vec!["adj-i".to_string()];
    let forms = generate_all_adjective_conjugations("寒い", "さむい", &tags).unwrap();
    assert_eq!(forms[0].kanji_form, "寒くない");
    assert_eq!(forms[0].kana_form, "さむくない");
    assert_eq!(forms[1].kanji_form, "寒かった");
    assert_eq!(forms[4].kanji_form, "寒くなかった");
}

#[test]
fn unrecognized_tags_give_no_conjugations() {
    let tags = vec!["n".to_string()];
    assert_eq!(generate_all_verb_conjugations("食べる", "たべる", &tags).len(), 0);
    assert!(generate_all_adjective_conjugations("いい", "", &tags).is_none());
    let empty: Vec<String> = Vec::new();
    assert_eq!(generate_all_verb_conjugations("食べる", "たべる", &empty).len(), 0);
}

#[test]
fn empty_lemma_gives_no_conjugations() {
    let tags = vec!["v1".to_string()];
    assert_eq!(generate_all_verb_conjugations("", "", &tags).len(), 0);
}

#[test]
fn godan_subclasses_follow_their_tables() {
    let tags = vec!["v5k".to_string()];
    let forms = generate_all_verb_conjugations("書く", "かく", &tags);
    let past = find_form(&forms, &[GrammaticalForm::Past]);
    assert_eq!(past.kanji_form, "書いた");
    let te = find_form(&forms, &[GrammaticalForm::TeForm]);
    assert_eq!(te.kanji_form, "書いて");
    let negative = find_form(&forms, &[GrammaticalForm::Negative]);
    assert_eq!(negative.kanji_form, "書かない");
    let volitional = find_form(&forms, &[GrammaticalForm::Volitional]);
    assert_eq!(volitional.kanji_form, "書こう");
}

#[test]
fn suru_verbs_replace_two_characters() {
    let tags = vec!["vs-i".to_string()];
    let forms = generate_all_verb_conjugations("勉強する", "べんきょうする", &tags);
    let negative = find_form(&forms, &[GrammaticalForm::Negative]);
    assert_eq!(negative.kanji_form, "勉強しない");
    let polite = find_form(&forms, &[GrammaticalForm::Polite]);
    assert_eq!(polite.kanji_form, "勉強します");
    let potential = find_form(&forms, &[GrammaticalForm::Potential]);
    assert_eq!(potential.kanji_form, "勉強できる");
}

#[test]
fn polite_imperative_follows_its_table() {
    assert_eq!(polite_imperative("食べる", VerbCategory::V1), "食べられます");
    assert_eq!(polite_imperative("書く", VerbCategory::V5K), "書かれます");
}

#[test]
fn first_recognized_tag_decides_the_category() {
    let tags = vec!["n".to_string(), "v5s".to_string(), "v1".to_string()];
    let forms = generate_all_verb_conjugations("話す", "はなす", &tags);
    let negative = find_form(&forms, &[GrammaticalForm::Negative]);
    assert_eq!(negative.kanji_form, "話さない");
}

#[test]
fn conjugation_checker_accepts_adjective_categories() {
    assert!(matches!(
        kanjidict::adjective::parse_adjective_tag("adj-ix"),
        Some(AdjectiveCategory::AdjIx)
    ));
    assert!(kanjidict::adjective::parse_adjective_tag("adj-na").is_none());
}
