use wasm_multilingual_chat::detect::{
    classify, detect_from_lowercase, holds_mark, strip_punctuation, tally, WORD_LIMIT,
};
use wasm_multilingual_chat::language::PRECEDENCE;
use wasm_multilingual_chat::text::{leading_pieces, CharClass};
use wasm_multilingual_chat::{detect_language, Language};

fn chars(text: &str) -> Vec<char> {
    text.chars().collect()
}

fn score_of(text: &str, language: Language) -> u32 {
    let written = chars(text);
    let lowered = chars(&text.to_lowercase());
    let words = leading_pieces(&lowered, CharClass::Whitespace, WORD_LIMIT);
    let tokens = strip_punctuation(&words);
    tally(&tokens, &written).score(language)
}

#[test]
fn empty_text_is_english() {
    assert_eq!(detect_language(""), "en");
}

#[test]
fn blank_text_is_english() {
    assert_eq!(detect_language("   "), "en");
    assert_eq!(detect_language("\t\n \u{00A0}\u{3000}"), "en");
}

#[test]
fn german_greeting_is_german() {
    assert_eq!(detect_language("Hallo und auf Wiedersehen, schöne Grüße"), "de");
}

#[test]
fn german_greeting_scores() {
    let text = "Hallo und auf Wiedersehen, schöne Grüße";
    assert_eq!(score_of(text, Language::De), 9);
    assert_eq!(score_of(text, Language::Fr), 3);
    assert_eq!(score_of(text, Language::Es), 3);
    assert_eq!(score_of(text, Language::Pt), 3);
    assert_eq!(score_of(text, Language::It), 0);
    assert_eq!(score_of(text, Language::En), 0);
    assert_eq!(score_of(text, Language::Hi), 0);
    assert_eq!(score_of(text, Language::Th), 0);
}

#[test]
fn devanagari_is_hindi() {
    assert_eq!(detect_language("नमस्ते"), "hi");
    assert_eq!(detect_language("नमस्ते दुनिया"), "hi");
}

#[test]
fn thai_script_is_thai() {
    assert_eq!(detect_language("สวัสดี"), "th");
}

#[test]
fn common_words_decide_between_latin_languages() {
    assert_eq!(detect_language("The quick brown fox jumps over the lazy dog"), "en");
    assert_eq!(detect_language("Le chat est sur la table avec une pomme"), "fr");
    assert_eq!(detect_language("El perro está en la casa y no quiere salir"), "es");
    assert_eq!(detect_language("Il gatto è sulla tavola con una mela"), "it");
    assert_eq!(detect_language("O gato não está em casa para comer"), "pt");
    assert_eq!(detect_language("Der Hund ist nicht im Haus"), "de");
}

#[test]
fn exact_scores_of_a_spanish_sentence() {
    let text = "El perro está en la casa y no quiere salir";
    assert_eq!(score_of(text, Language::Es), 13);
    assert_eq!(score_of(text, Language::Pt), 5);
    assert_eq!(score_of(text, Language::Fr), 2);
    assert_eq!(score_of(text, Language::It), 2);
    assert_eq!(score_of(text, Language::En), 0);
    assert_eq!(score_of(text, Language::De), 0);
}

#[test]
fn script_words_weigh_three() {
    assert_eq!(score_of("और", Language::Hi), 13);
    assert_eq!(score_of("और और", Language::Hi), 16);
    assert_eq!(score_of("ใน", Language::Th), 13);
    assert_eq!(score_of("the the", Language::En), 4);
}

#[test]
fn ties_go_to_the_earlier_language() {
    assert_eq!(detect_language("a"), "en");
    assert_eq!(detect_language("i"), "en");
    assert_eq!(detect_language("in"), "en");
    assert_eq!(detect_language("de"), "fr");
    assert_eq!(detect_language("se"), "fr");
    assert_eq!(detect_language("le"), "fr");
    assert_eq!(detect_language("un"), "fr");
    assert_eq!(detect_language("la"), "it");
    assert_eq!(detect_language("e"), "it");
    assert_eq!(detect_language("como"), "pt");
    assert_eq!(detect_language("नमस्ते สวัสดี"), "hi");
}

#[test]
fn no_evidence_is_english() {
    assert_eq!(detect_language("xyzzy 12345"), "en");
    assert_eq!(detect_language("... !!! ???"), "en");
    assert_eq!(detect_language("Привет мир"), "en");
}

#[test]
fn only_the_first_fifty_words_count() {
    let mut late = "x ".repeat(50);
    late.push_str(&"und ".repeat(10));
    assert_eq!(detect_language(&late), "en");
    let mut in_time = "x ".repeat(49);
    in_time.push_str("und");
    assert_eq!(detect_language(&in_time), "de");
    assert_eq!(score_of(&"und ".repeat(60), Language::De), 100);
}

#[test]
fn punctuation_around_a_word_is_ignored() {
    assert_eq!(detect_language("(und)!"), "de");
    assert_eq!(detect_language("und,"), "de");
    assert_eq!(detect_language("\"der\""), "de");
    assert_eq!(detect_language("u.nd"), "en");
}

#[test]
fn words_are_compared_in_lower_case() {
    assert_eq!(detect_language("UND DER DIE"), "de");
    assert_eq!(detect_language("Und"), "de");
}

#[test]
fn marks_are_read_from_the_text_as_written() {
    assert_eq!(detect_language("ü"), "de");
    assert_eq!(detect_language("Ü"), "en");
    assert_eq!(detect_language("ñ"), "es");
    assert_eq!(detect_language("ã"), "pt");
    assert_eq!(detect_language("ì"), "it");
    assert_eq!(detect_language("ÿ"), "fr");
    assert_eq!(detect_language("é"), "pt");
}

#[test]
fn a_mark_counts_once() {
    assert_eq!(score_of("üüüü ööö ß", Language::De), 5);
    assert_eq!(detect_language("the the ü"), "de");
    assert_eq!(detect_language("the the the ü"), "en");
    assert_eq!(score_of("नमस्ते नमस्ते", Language::Hi), 10);
}

#[test]
fn script_outweighs_a_few_words() {
    assert_eq!(detect_language("the the the the नमस्ते"), "hi");
    assert_eq!(detect_language("the the the the the नमस्ते"), "en");
    assert_eq!(detect_language("the the the the the the नमस्ते"), "en");
}

#[test]
fn detection_answers_with_one_of_eight_codes() {
    let codes = ["en", "de", "fr", "it", "pt", "hi", "es", "th"];
    let samples = [
        "",
        " ",
        "hello",
        "¿Qué tal?",
        "Grüße",
        "नमस्ते",
        "สวัสดี",
        "一二三",
        "\u{0}\u{1}",
        "a b c d e f g",
        "🙂🙂🙂",
    ];
    for sample in samples {
        let code = detect_language(sample);
        assert!(codes.contains(&code.as_str()));
    }
}

#[test]
fn detection_repeats_itself() {
    let samples = ["a", "de la", "the und le", "नमस्ते สวัสดี", "", "como se"];
    for sample in samples {
        assert_eq!(detect_language(sample), detect_language(sample));
    }
}

#[test]
fn classify_without_words_is_english() {
    let text = chars("ü");
    assert_eq!(classify(&[], &text), Language::En);
}

#[test]
fn classify_reads_words_and_marks() {
    let und = chars("und");
    let the = chars("the");
    let nothing = chars("");
    let plain = chars("plain");
    assert_eq!(classify(&[&und[..]], &plain), Language::De);
    assert_eq!(classify(&[&the[..], &und[..]], &plain), Language::En);
    assert_eq!(classify(&[&the[..], &und[..], &und[..]], &plain), Language::De);
    assert_eq!(classify(&[&nothing[..]], &plain), Language::En);
    assert_eq!(classify(&[&nothing[..]], &chars("ß")), Language::De);
    assert_eq!(classify(&[&the[..]], &chars("ß")), Language::De);
}

#[test]
fn classify_compares_words_as_they_are() {
    let upper = chars("UND");
    let padded = chars("und ");
    let plain = chars("plain");
    assert_eq!(classify(&[&upper[..]], &plain), Language::En);
    assert_eq!(classify(&[&padded[..]], &plain), Language::En);
}

#[test]
fn detect_from_lowercase_uses_the_given_lower_case() {
    let text = chars("UND");
    assert_eq!(detect_from_lowercase(&text, &chars("und")), Language::De);
    assert_eq!(detect_from_lowercase(&text, &chars("the")), Language::En);
    assert_eq!(detect_from_lowercase(&text, &chars("le")), Language::Fr);
    assert_eq!(detect_from_lowercase(&text, &chars("")), Language::En);
    assert_eq!(detect_from_lowercase(&chars("  "), &chars("und")), Language::En);
}

#[test]
fn strip_punctuation_keeps_the_place_of_each_token() {
    let a = chars("(und)");
    let b = chars("...");
    let c = chars("l'eau!");
    let bare = strip_punctuation(&[&a[..], &b[..], &c[..]]);
    assert_eq!(bare.len(), 3);
    assert_eq!(bare[0], &chars("und")[..]);
    assert_eq!(bare[1], &chars("")[..]);
    assert_eq!(bare[2], &chars("l'eau")[..]);
}

#[test]
fn holds_mark_finds_scripts_and_letters() {
    assert!(holds_mark(Language::Hi, &chars("abc \u{0900}")));
    assert!(holds_mark(Language::Hi, &chars("\u{097F}")));
    assert!(!holds_mark(Language::Hi, &chars("\u{08FF}\u{0980}")));
    assert!(holds_mark(Language::Th, &chars("\u{0E00}")));
    assert!(holds_mark(Language::Th, &chars("\u{0E7F}")));
    assert!(!holds_mark(Language::Th, &chars("\u{0DFF}\u{0E80}")));
    assert!(holds_mark(Language::De, &chars("Straße")));
    assert!(!holds_mark(Language::De, &chars("Strasse")));
    for language in PRECEDENCE {
        assert!(!holds_mark(language, &chars("")));
        assert!(!holds_mark(Language::En, &chars(language.code())));
    }
}

#[test]
fn tally_holds_only_languages_with_points() {
    let und = chars("und");
    let table = tally(&[&und[..]], &chars("und"));
    assert_eq!(table.score(Language::De), 2);
    for language in PRECEDENCE {
        if language != Language::De {
            assert_eq!(table.score(language), 0);
        }
    }
    assert_eq!(table.best(), Language::De);
}
