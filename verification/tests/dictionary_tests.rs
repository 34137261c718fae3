use kanjidict::catalog::Innocent;
use kanjidict::catalog::Jmdict;
use kanjidict::catalog::Kanjidic;
use kanjidict::catalog::ParseJmdict;
use kanjidict::catalog::ParseTag;
use kanjidict::catalog::Radk;
use kanjidict::catalog::Tag;
use kanjidict::entries::DictionaryEntry;
use kanjidict::entries::Kanji;
use kanjidict::entries::Name;
use kanjidict::entries::Query;
use kanjidict::entries::Radical;
use kanjidict::entries::Word;
use kanjidict::index::Dictionary;
use kanjidict::paths::jmdict_dict_paths;
use kanjidict::paths::krad_dict_paths;
use kanjidict::segment::parse_sentence;
use kanjidict::strutil::parse_u32_dec;
use kanjidict::strutil::parse_u32_hex;

fn noun_tag() -> Tag {
    Tag::from_parsed(
        ParseTag {
            tag: "n".to_string(),
            category: "partOfSpeech".to_string(),
            _integer1: 0,
            description: "noun".to_string(),
            _integer2: 0,
        },
        None,
    )
}

fn word(vocabulary: &str, reading: &str, meaning: &str, tag: &str, id: u32, frequency: Option<u32>) -> Word {
    let tags = vec![Tag::from_parsed(
        ParseTag {
            tag: tag.to_string(),
            category: "partOfSpeech".to_string(),
            _integer1: 0,
            description: tag.to_string(),
            _integer2: 0,
        },
        None,
    )];
    let jmdict = Jmdict {
        vocabulary: vocabulary.to_string(),
        reading: reading.to_string(),
        romaji: String::new(),
        tags,
        meanings: vec![meaning.to_string()],
        id,
    };
    let innocent = frequency.map(|f| Innocent { vocabulary: vocabulary.to_string(), frequency: f });
    Word::from(jmdict, innocent.as_ref(), None)
}

fn corpus() -> Vec<DictionaryEntry> {
    let kanji = Kanji::from(
        Kanjidic {
            kanji: "食".to_string(),
            kun_yomi: "た.べる く.う".to_string(),
            on_yomi: "ショク ジキ".to_string(),
            tags: Vec::new(),
            meanings: vec!["eat".to_string()],
            attributes: vec![
                ("strokes".to_string(), "9".to_string()),
                ("ucs".to_string(), "98df".to_string()),
                ("nelson".to_string(), "5154".to_string()),
            ],
        },
        None,
        None,
    );
    let name = Name::from(Jmdict {
        vocabulary: "食べる".to_string(),
        reading: "たべる".to_string(),
        romaji: String::new(),
        tags: vec![noun_tag()],
        meanings: vec!["Taberu".to_string()],
        id: 7,
    });
    let radical = Radical::from(Radk {
        radical: "食".to_string(),
        strokes: 9,
        kanji: "飯飲".to_string(),
    });
    vec![
        DictionaryEntry::Kanji(kanji),
        DictionaryEntry::Word(word("食べる", "たべる", "to eat, to live on", "v1", 2, Some(500))),
        DictionaryEntry::Word(word("食べる", "たべる", "to eat", "v1", 1, Some(100))),
        DictionaryEntry::Name(name),
        DictionaryEntry::Radical(radical),
        DictionaryEntry::Word(word("さよなら", "さよなら", "goodbye", "n", 3, None)),
    ]
}

#[test]
fn kanji_entry_reads_its_attributes() {
    let entries = corpus();
    match &entries[0] {
        DictionaryEntry::Kanji(k) => {
            assert_eq!(k.strokes, 9);
            assert_eq!(k.id, 0x98df);
            assert_eq!(k.jlpt, None);
            assert_eq!(k.kun_yomi, vec!["た.べる".to_string(), "く.う".to_string()]);
            assert_eq!(k.attributes, vec![("nelson".to_string(), "5154".to_string())]);
        }
        _ => panic!("the first corpus entry should be the kanji"),
    }
}

#[test]
fn searchable_terms_cover_conjugations_and_meanings() {
    let entries = corpus();
    let terms = entries[2].searchable_terms();
    assert!(terms.iter().any(|t| t == "食べる"));
    assert!(terms.iter().any(|t| t == "たべる"));
    assert!(terms.iter().any(|t| t == "v1"));
    assert!(terms.iter().any(|t| t == "to eat"));
    assert!(terms.iter().any(|t| t == "食べない"));
    assert!(terms.iter().any(|t| t == "たべさせられなかった"));
    let split = entries[1].searchable_terms();
    assert!(split.iter().any(|t| t == "to eat"));
    assert!(split.iter().any(|t| t == "to live on"));
}

fn same_entry(a: &DictionaryEntry, b: &DictionaryEntry) -> bool {
    a.name() == b.name() && a.primary_word() == b.primary_word() && a.id() == b.id()
}

#[test]
fn every_searchable_term_finds_its_entry() {
    let entries = corpus();
    let dict = Dictionary::create(&entries);
    for entry in entries.iter() {
        for term in entry.searchable_terms() {
            let found = dict.get(&term);
            assert!(
                found.iter().any(|e| same_entry(e, entry)),
                "term {} should find its entry",
                term
            );
        }
    }
}

#[test]
fn get_returns_only_exact_keys() {
    let entries = corpus();
    let dict = Dictionary::create(&entries);
    assert!(dict.get("たべな").is_empty());
    assert_eq!(dict.get("goodbye").len(), 1);
}

#[test]
fn get_all_chains_lookups() {
    let entries = corpus();
    let dict = Dictionary::create(&entries);
    let keys = vec!["goodbye".to_string(), "to live on".to_string()];
    assert_eq!(dict.get_all(&keys).len(), 2);
    let shared = vec!["to eat".to_string()];
    assert_eq!(dict.get_all(&shared).len(), 2);
}

#[test]
fn word_query_returns_only_words_in_frequency_order() {
    let entries = corpus();
    let dict = Dictionary::create(&entries);
    let results = dict.query("#word 食べる");
    assert!(!results.is_empty());
    let mut ids = Vec::new();
    for entry in results.iter() {
        match entry {
            DictionaryEntry::Word(w) => ids.push(w.id),
            _ => panic!("a #word query must return only word entries"),
        }
    }
    assert_eq!(ids, vec![1, 2]);
}

#[test]
fn kanji_queries_split_the_key_into_characters() {
    let entries = corpus();
    let dict = Dictionary::create(&entries);
    let results = dict.query("#kanji 食べる");
    assert_eq!(results.len(), 1);
    assert_eq!(results[0].name(), "Kanji");
}

#[test]
fn romaji_queries_fall_back_to_kana_when_it_finds_more() {
    let entries = corpus();
    let dict = Dictionary::create(&entries);
    let results = dict.query("sayonara");
    assert!(!results.is_empty());
    assert!(results.iter().all(|e| match e {
        DictionaryEntry::Word(w) => w.id == 3,
        _ => false,
    }));
    assert!(dict.query("zzzu").is_empty());
}

#[test]
fn query_normalization_trims_and_lowers() {
    let entries = corpus();
    let dict = Dictionary::create(&entries);
    let quoted = dict.query("  \"GOODBYE\"  ");
    assert_eq!(quoted.len(), 1);
    assert_eq!(quoted[0].name(), "Word");
}

#[test]
fn query_is_deterministic_across_invocations() {
    let entries = corpus();
    let dict = Dictionary::create(&entries);
    let first: Vec<String> = dict.query("食べる").iter().map(|e| e.primary_word().clone()).collect();
    let second: Vec<String> = dict.query("食べる").iter().map(|e| e.primary_word().clone()).collect();
    assert_eq!(first, second);
}

fn sentence_corpus() -> Vec<DictionaryEntry> {
    vec![
        DictionaryEntry::Word(word("今日", "きょう", "today", "n", 10, Some(50))),
        DictionaryEntry::Word(word("寒い", "さむい", "cold", "adj-i", 11, Some(300))),
        DictionaryEntry::Word(word("は", "は", "topic particle", "n", 12, Some(1))),
    ]
}

#[test]
fn segmenter_concatenation_restores_the_sentence() {
    let entries = sentence_corpus();
    let dict = Dictionary::create(&entries);
    let sentence = parse_sentence(&dict, "今日は寒い", 1);
    assert_eq!(sentence.raw, "今日は寒い");
    let words = sentence.decomposition.expect("the sentence should decompose");
    let surfaces: Vec<&str> = words.iter().map(|w| w.word.as_str()).collect();
    assert_eq!(surfaces, vec!["今日", "は", "寒い"]);
    assert_eq!(surfaces.concat(), "今日は寒い");
    for parsed in words.iter() {
        assert!(!parsed.interpretations.is_empty());
    }
}

#[test]
fn segmenter_reports_failure_on_unknown_spans() {
    let entries = sentence_corpus();
    let dict = Dictionary::create(&entries);
    let sentence = parse_sentence(&dict, "今日が寒い", 2);
    assert!(sentence.decomposition.is_none());
}

#[test]
fn segmenter_prefers_the_longest_match() {
    let mut entries = sentence_corpus();
    entries.push(DictionaryEntry::Word(word("今日は", "きょうは", "as of today", "n", 13, Some(5))));
    let dict = Dictionary::create(&entries);
    let sentence = parse_sentence(&dict, "今日は寒い", 3);
    let words = sentence.decomposition.expect("the sentence should decompose");
    let surfaces: Vec<&str> = words.iter().map(|w| w.word.as_str()).collect();
    assert_eq!(surfaces, vec!["今日は", "寒い"]);
}

#[test]
fn tag_lookup_keeps_only_known_names() {
    let bank = vec![noun_tag()];
    let parsed = ParseJmdict {
        vocabulary: "犬".to_string(),
        reading: "いぬ".to_string(),
        romaji: "inu".to_string(),
        tags: "n xyz".to_string(),
        meanings: vec!["dog".to_string()],
        id: 20,
    };
    let record = Jmdict::from_parsed(parsed, Some(&bank));
    assert_eq!(record.tags.len(), 1);
    assert_eq!(record.tags[0].description, "noun");
}

#[test]
fn numbered_paths_render_their_indices() {
    let paths = jmdict_dict_paths();
    assert_eq!(paths.len(), 32);
    assert_eq!(paths[0], "resources/jmdict_english/term_bank_1.json");
    assert_eq!(paths[31], "resources/jmdict_english/term_bank_32.json");
    assert_eq!(krad_dict_paths(), vec!["resources/radicals/kradfile.json".to_string()]);
}

#[test]
fn number_parsing_accepts_exactly_digit_strings() {
    assert_eq!(parse_u32_dec("42"), Some(42));
    assert_eq!(parse_u32_dec("042"), Some(42));
    assert_eq!(parse_u32_dec(""), None);
    assert_eq!(parse_u32_dec("12a"), None);
    assert_eq!(parse_u32_dec("99999999999"), None);
    assert_eq!(parse_u32_hex("98df"), Some(0x98df));
    assert_eq!(parse_u32_hex("FF"), Some(255));
    assert_eq!(parse_u32_hex("xyz"), None);
}

#[test]
fn consecutive_records_with_one_id_merge_their_meanings() {
    let record = |meanings: Vec<&str>, id: u32| Jmdict {
        vocabulary: "犬".to_string(),
        reading: "いぬ".to_string(),
        romaji: String::new(),
        tags: Vec::new(),
        meanings: meanings.into_iter().map(|m| m.to_string()).collect(),
        id,
    };
    let merged = kanjidict::catalog::merge_jmdicts(vec![
        record(vec!["dog", "hound"], 5),
        record(vec!["doggo"], 5),
        record(vec!["doggo"], 5),
        record(vec!["canine"], 6),
    ]);
    assert_eq!(merged.len(), 2);
    assert_eq!(merged[0].meanings, vec!["dog, hound".to_string(), "doggo".to_string()]);
    assert_eq!(merged[1].meanings, vec!["canine".to_string()]);
}
