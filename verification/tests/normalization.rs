use wasm_multilingual_chat::normalize_text;

#[test]
fn english_is_lower_cased() {
    assert_eq!(normalize_text("HELLO", "en"), "hello");
}

#[test]
fn hindi_is_trimmed_and_left_as_it_is() {
    assert_eq!(normalize_text("  नमस्ते  ", "hi"), "नमस्ते");
    assert_eq!(normalize_text("  Hello World \n", "hi"), "Hello World");
}

#[test]
fn thai_is_trimmed_and_left_as_it_is() {
    assert_eq!(normalize_text("\t สวัสดี \t", "th"), "สวัสดี");
    assert_eq!(normalize_text(" ABC ", "th"), "ABC");
    assert_eq!(normalize_text("\u{00A0}\u{3000}ก ข\u{2003}", "th"), "ก ข");
}

#[test]
fn trimming_keeps_white_space_inside() {
    assert_eq!(normalize_text(" a  b ", "hi"), "a  b");
    assert_eq!(normalize_text("   ", "hi"), "");
    assert_eq!(normalize_text("", "th"), "");
    assert_eq!(normalize_text("x", "th"), "x");
}

#[test]
fn european_languages_are_lower_cased() {
    assert_eq!(normalize_text("Grüße AUS Köln", "de"), "grüße aus köln");
    assert_eq!(normalize_text("ÇA VA", "fr"), "ça va");
    assert_eq!(normalize_text("ESPAÑA", "es"), "españa");
    assert_eq!(normalize_text("PERCHÉ", "it"), "perché");
    assert_eq!(normalize_text("AÇÃO", "pt"), "ação");
}

#[test]
fn lower_casing_does_not_trim() {
    assert_eq!(normalize_text("  A  ", "en"), "  a  ");
    assert_eq!(normalize_text(" B\n", "de"), " b\n");
}

#[test]
fn sharp_s_is_lower_cased_like_any_letter() {
    assert_eq!(normalize_text("Straße", "de"), "straße");
    assert_eq!(normalize_text("STRA\u{1E9E}E", "de"), "straße");
    assert_eq!(normalize_text("STRASSE", "de"), "strasse");
}

#[test]
fn lower_casing_follows_unicode() {
    assert_eq!(normalize_text("ὈΔΥΣΣΕΎΣ", "en"), "ὀδυσσεύς");
    assert_eq!(normalize_text("农历新年", "en"), "农历新年");
}

#[test]
fn unknown_codes_select_lower_case() {
    assert_eq!(normalize_text("  ABC  ", "xx"), "  abc  ");
    assert_eq!(normalize_text("  ABC  ", ""), "  abc  ");
    assert_eq!(normalize_text("  ABC  ", "HI"), "  abc  ");
    assert_eq!(normalize_text("  ABC  ", "hi "), "  abc  ");
    assert_eq!(normalize_text("  ABC  ", "hindi"), "  abc  ");
    assert_eq!(normalize_text("  ABC  ", "h"), "  abc  ");
}

#[test]
fn normalising_twice_changes_nothing() {
    let texts = ["  Hello World  ", "GRÜSSE", "  नमस्ते  ", "", " \t ", "ÉCOLE à Paris", "ΣΑΣ"];
    for code in ["en", "de", "fr", "it", "pt", "hi", "es", "th"] {
        for text in texts {
            let once = normalize_text(text, code);
            assert_eq!(normalize_text(&once, code), once);
        }
    }
}

#[test]
fn normalisation_repeats_itself() {
    for code in ["en", "hi", "zz"] {
        assert_eq!(normalize_text(" Ab ", code), normalize_text(" Ab ", code));
    }
}

#[test]
fn lower_casing_a_letter_gives_a_stable_form() {
    let mut changed = 0;
    for code_point in 0..=0x10FFFFu32 {
        let Some(letter) = char::from_u32(code_point) else {
            continue;
        };
        let text = letter.to_string();
        let lower: String = letter.to_lowercase().collect();
        if lower != text {
            changed += 1;
            assert_eq!(normalize_text(&text, "en"), lower);
            assert_eq!(normalize_text(&lower, "en"), lower);
            let once = normalize_text(&format!("a{text}b {text}"), "de");
            assert_eq!(normalize_text(&once, "de"), once);
        }
    }
    assert!(changed > 1000);
}
