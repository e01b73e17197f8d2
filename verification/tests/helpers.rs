use hanko_orders::admin::{
    image_extension_for_content_type, next_status_options, normalize_bind_addr,
    normalize_query_value, normalize_storage_path, shipping_transition_options, status_options,
    validate_material_key, validate_material_photo_storage_path, validate_material_values,
    RunMode,
};
use hanko_orders::config::{
    contains, default_public_config, first_non_empty, normalize_public_config, PublicConfig,
};
use hanko_orders::locale::{lookup_locale, resolve_localized, resolve_localized_text, LocalizedText};
use hanko_orders::number::{format_yen, parse_i64};
use hanko_orders::storefront::{
    material_shape_label, normalize_candidate_gender, normalize_kanji_style, shape_label,
    validate_generate_kanji_candidates_request, validate_seal_lines,
    GenerateKanjiCandidatesRequest, KanjiRequestError, DEFAULT_KANJI_CANDIDATE_COUNT,
};
use hanko_orders::text::contains_whitespace;
use hanko_orders::validation::{
    is_valid_email, is_valid_idempotency_key, is_valid_locale_tag, require_non_empty,
    validate_seal_line,
};

fn pairs(items: &[(&str, &str)]) -> LocalizedText {
    items.iter().map(|(k, v)| ((*k).to_owned(), (*v).to_owned())).collect()
}

#[test]
fn format_yen_with_separator() {
    assert_eq!(format_yen(0), "0");
    assert_eq!(format_yen(1200), "1,200");
    assert_eq!(format_yen(1234567), "1,234,567");
}

#[test]
fn format_yen_handles_signs_and_group_edges() {
    assert_eq!(format_yen(999), "999");
    assert_eq!(format_yen(1000), "1,000");
    assert_eq!(format_yen(100000), "100,000");
    assert_eq!(format_yen(-1), "-1");
    assert_eq!(format_yen(-1234), "-1,234");
    assert_eq!(format_yen(i64::MAX), "9,223,372,036,854,775,807");
    assert_eq!(format_yen(i64::MIN), "-9,223,372,036,854,775,808");
}

#[test]
fn resolve_localized_uses_fallback_order() {
    let mut values = LocalizedText::new();
    values.push(("ja".to_owned(), "".to_owned()));
    values.push(("en".to_owned(), "Boxwood".to_owned()));

    assert_eq!(resolve_localized(&values, "en", "ja"), "Boxwood");
    assert_eq!(resolve_localized(&values, "fr", "en"), "Boxwood");
    assert_eq!(resolve_localized(&values, "fr", "ko"), "Boxwood");
}

#[test]
fn resolve_localized_falls_back_in_order() {
    let values = pairs(&[("ja", "柘植"), ("en", "Boxwood")]);

    assert_eq!(resolve_localized(&values, "en", "ja"), "Boxwood");
    assert_eq!(resolve_localized(&values, "fr", "en"), "Boxwood");
    assert_eq!(resolve_localized(&values, "fr", "ko"), "柘植");
    assert_eq!(resolve_localized_text(&values, "fr", "ko"), "柘植");
    assert_eq!(resolve_localized(&values, "EN-us", "ja"), "Boxwood");
}

#[test]
fn resolve_localized_takes_the_least_locale_that_has_a_text() {
    let values = pairs(&[("ja", " "), ("zh", "黄楊"), ("en", " Boxwood "), ("de", "")]);
    assert_eq!(resolve_localized(&values, "fr", "ko"), "Boxwood");
    assert_eq!(resolve_localized_text(&values, "", ""), "Boxwood");
    assert_eq!(resolve_localized(&pairs(&[("ja", "")]), "fr", "ko"), "");
    assert_eq!(resolve_localized(&LocalizedText::new(), "fr", "ko"), "");
    let prefixed = pairs(&[("enx", "long"), ("en-", "hyphen"), ("en", "short")]);
    assert_eq!(resolve_localized(&prefixed, "fr", "ko"), "short");
}

#[test]
fn lookup_locale_matches_locale_then_language() {
    let values = pairs(&[(" EN ", " Boxwood "), ("en-gb", "Box"), ("ja", "")]);
    assert_eq!(lookup_locale(&values, "en"), Some("Boxwood".to_owned()));
    assert_eq!(lookup_locale(&values, " En-GB "), Some("Box".to_owned()));
    assert_eq!(lookup_locale(&values, "en-US"), Some("Boxwood".to_owned()));
    assert_eq!(lookup_locale(&values, "ja"), None);
    assert_eq!(lookup_locale(&values, "fr-ca"), None);
    assert_eq!(lookup_locale(&values, "  "), None);
}

#[test]
fn validate_generate_kanji_candidates_request_accepts_defaults() {
    let request = GenerateKanjiCandidatesRequest {
        real_name: "Michael Smith".to_owned(),
        reason_language: None,
        count: None,
    };

    let input =
        validate_generate_kanji_candidates_request(request).expect("request must be valid");
    assert_eq!(input.reason_language, "en");
    assert_eq!(input.count, DEFAULT_KANJI_CANDIDATE_COUNT);
}

#[test]
fn validate_generate_kanji_candidates_request_names_the_broken_rule() {
    let check = |name: &str, language: Option<&str>, count: Option<usize>| {
        validate_generate_kanji_candidates_request(GenerateKanjiCandidatesRequest {
            real_name: name.to_owned(),
            reason_language: language.map(str::to_owned),
            count,
        })
        .map(|input| (input.real_name, input.reason_language, input.count))
    };
    assert_eq!(check("  ", None, None), Err(KanjiRequestError::RealNameRequired));
    assert_eq!(check(&"x".repeat(121), None, None), Err(KanjiRequestError::RealNameTooLong));
    assert_eq!(check("a", Some(" "), None), Err(KanjiRequestError::ReasonLanguageRequired));
    assert_eq!(
        check("a", Some(&"l".repeat(33)), None),
        Err(KanjiRequestError::ReasonLanguageTooLong)
    );
    assert_eq!(check("a", None, Some(0)), Err(KanjiRequestError::CountOutOfRange));
    assert_eq!(check("a", None, Some(11)), Err(KanjiRequestError::CountOutOfRange));
    assert_eq!(
        check(&format!(" {} ", "山".repeat(120)), Some(" ja "), Some(10)),
        Ok(("山".repeat(120), "ja".to_owned(), 10))
    );
    assert_eq!(KanjiRequestError::CountOutOfRange.message(), "count must be in range 1-10");
}

#[test]
fn parse_i64_reads_what_the_standard_library_reads() {
    let cases = [
        "0", "-0", "+0", "007", "42", "-42", "+42", "9223372036854775807",
        "9223372036854775808", "-9223372036854775808", "-9223372036854775809",
        "99999999999999999999999", "", "+", "-", "1_000", "1 ", " 1", "--1", "1e3", "１２",
    ];
    for case in cases {
        let chars: Vec<char> = case.chars().collect();
        assert_eq!(parse_i64(&chars), case.parse::<i64>().ok(), "{case:?}");
    }
}

#[test]
fn public_config_is_normalized() {
    let cfg = default_public_config();
    assert_eq!(cfg.supported_locales, vec!["ja".to_owned(), "en".to_owned()]);
    assert_eq!(cfg.default_locale, "ja");

    let messy = normalize_public_config(PublicConfig {
        supported_locales: vec![
            " EN ".to_owned(),
            "en".to_owned(),
            "".to_owned(),
            "Fr".to_owned(),
        ],
        default_locale: " FR ".to_owned(),
    });
    assert_eq!(messy.supported_locales, vec!["en".to_owned(), "fr".to_owned()]);
    assert_eq!(messy.default_locale, "fr");

    let missing = normalize_public_config(PublicConfig {
        supported_locales: vec!["en".to_owned()],
        default_locale: "de".to_owned(),
    });
    assert_eq!(missing.supported_locales, vec!["ja".to_owned(), "en".to_owned()]);
    assert_eq!(missing.default_locale, "ja");

    let empty = normalize_public_config(PublicConfig {
        supported_locales: vec![" ".to_owned()],
        default_locale: "".to_owned(),
    });
    assert_eq!(empty.supported_locales, vec!["ja".to_owned(), "en".to_owned()]);
    assert_eq!(empty.default_locale, "ja");
}

#[test]
fn contains_and_first_non_empty_look_in_order() {
    let values = vec!["ja".to_owned(), "en".to_owned()];
    assert!(contains(&values, "en"));
    assert!(!contains(&values, "EN"));
    assert!(!contains(&Vec::new(), ""));
    assert_eq!(
        first_non_empty(&vec![
            None,
            Some("  ".to_owned()),
            Some(" a ".to_owned()),
            Some("b".to_owned())
        ]),
        Some("a".to_owned())
    );
    assert_eq!(first_non_empty(&vec![None, Some("".to_owned())]), None);
    assert_eq!(first_non_empty(&Vec::new()), None);
}

#[test]
fn field_checks_give_the_message() {
    assert_eq!(require_non_empty("shipping.phone", " 1 "), Ok(()));
    assert_eq!(
        require_non_empty("shipping.phone", " \t"),
        Err("shipping.phone is required".to_owned())
    );
    assert_eq!(validate_seal_line("seal.line1", "山田", 1, 2), Ok(()));
    assert_eq!(validate_seal_line("seal.line2", "", 0, 2), Ok(()));
    assert_eq!(
        validate_seal_line("seal.line1", "", 1, 2),
        Err("seal.line1 must be 1-2 characters".to_owned())
    );
    assert_eq!(validate_seal_line("seal.line1", "abc", 0, 12), Ok(()));
    assert_eq!(
        validate_seal_line("seal.line1", "abcd", 10, 120),
        Err("seal.line1 must be 10-120 characters".to_owned())
    );
    assert_eq!(
        validate_seal_line("seal.line2", "a b", 0, 3),
        Err("seal.line2 must not contain whitespace".to_owned())
    );
    assert!(contains_whitespace("a\u{3000}b"));
    assert!(contains_whitespace("a\u{85}"));
    assert!(!contains_whitespace("a\u{200b}b"));
    assert!(!contains_whitespace(""));
}

#[test]
fn whitespace_is_what_the_standard_library_says() {
    for code in 0..0x11000u32 {
        if let Some(c) = char::from_u32(code) {
            let text = c.to_string();
            assert_eq!(contains_whitespace(&text), c.is_whitespace(), "U+{code:04X}");
        }
    }
}

#[test]
fn grammar_checks_accept_and_refuse() {
    assert!(is_valid_email(" taro@example.com "));
    assert!(is_valid_email("a@b.c"));
    for bad in ["", "taro", "@example.com", "taro@", "a@b@c.d", "a@.b.c", "a@b.c.", "a@bc"] {
        assert!(!is_valid_email(bad), "{bad}");
    }
    assert!(is_valid_idempotency_key("abcDEF_0-9"));
    assert!(!is_valid_idempotency_key("abcdefg"));
    assert!(!is_valid_idempotency_key("abcdefgh!"));
    assert!(!is_valid_idempotency_key("abcdefgh\n"));
    assert!(is_valid_locale_tag("ja"));
    assert!(is_valid_locale_tag("zh-hant-tw"));
    assert!(is_valid_locale_tag("es-419"));
    for bad in ["", "j", "japn", "JA", "ja-", "-ja", "ja--jp", "ja-j", "ja-123456789", "j1"] {
        assert!(!is_valid_locale_tag(bad), "{bad}");
    }
}

#[test]
fn admin_options_follow_the_table() {
    let values = |options: Vec<hanko_orders::admin::StatusOptionView>| -> Vec<(String, String)> {
        options.into_iter().map(|o| (o.value, o.label)).collect()
    };
    let all = values(status_options());
    assert_eq!(all.len(), 7);
    assert_eq!(all[0], ("canceled".to_owned(), "キャンセル".to_owned()));
    assert_eq!(all[4], ("pending_payment".to_owned(), "支払い待ち".to_owned()));
    let mut sorted = all.clone();
    sorted.sort();
    assert_eq!(all, sorted);
    assert_eq!(
        values(next_status_options("paid")),
        vec![
            ("manufacturing".to_owned(), "製造中".to_owned()),
            ("refunded".to_owned(), "返金済み".to_owned())
        ]
    );
    assert!(next_status_options("delivered").is_empty());
    assert_eq!(
        values(shipping_transition_options("manufacturing")),
        vec![
            ("none".to_owned(), "ステータス変更なし".to_owned()),
            ("shipped".to_owned(), "出荷済み".to_owned())
        ]
    );
    assert_eq!(values(shipping_transition_options("pending_payment")).len(), 1);
    assert_eq!(values(shipping_transition_options("refunded")).len(), 1);
    assert_eq!(RunMode::Mock.as_str(), "mock");
    assert_eq!(RunMode::Dev.as_str(), "dev");
    assert_eq!(RunMode::Prod.as_str(), "prod");
}

#[test]
fn admin_values_are_normalized() {
    assert_eq!(normalize_query_value(Some(" paid ".to_owned())), "paid");
    assert_eq!(normalize_query_value(None), "");
    assert_eq!(normalize_storage_path(" //materials/a.webp "), "materials/a.webp");
    assert_eq!(normalize_storage_path("a/b/"), "a/b/");
    assert_eq!(normalize_storage_path(" / "), "");
    assert_eq!(image_extension_for_content_type("image/jpeg"), "jpg");
    assert_eq!(image_extension_for_content_type("image/png"), "png");
    assert_eq!(image_extension_for_content_type("image/gif"), "gif");
    assert_eq!(image_extension_for_content_type("image/avif"), "avif");
    assert_eq!(image_extension_for_content_type("text/plain"), "webp");
    assert_eq!(normalize_bind_addr(" :3051 "), "0.0.0.0:3051");
    assert_eq!(normalize_bind_addr("127.0.0.1:3051"), "127.0.0.1:3051");
    assert_eq!(normalize_bind_addr("3051"), "0.0.0.0:3051");
}

#[test]
fn material_checks_give_the_message() {
    assert_eq!(validate_material_key("black-buffalo_2"), Ok(()));
    assert_eq!(validate_material_key("__x"), Ok(()));
    assert_eq!(validate_material_key(""), Err("材質キーは必須です。".to_owned()));
    assert_eq!(
        validate_material_key(&"a".repeat(65)),
        Err("材質キーは 64 文字以内で入力してください。".to_owned())
    );
    assert_eq!(validate_material_key(&"a".repeat(64)), Ok(()));
    assert_eq!(
        validate_material_key("__name__"),
        Err("材質キーに `__...__` 形式は利用できません。".to_owned())
    );
    assert_eq!(
        validate_material_key("__"),
        Err("材質キーに `__...__` 形式は利用できません。".to_owned())
    );
    assert_eq!(
        validate_material_key("Titanium"),
        Err("材質キーは英小文字・数字・ハイフン・アンダースコアのみ使用できます。".to_owned())
    );
    assert_eq!(validate_material_photo_storage_path(""), Ok(()));
    assert_eq!(validate_material_photo_storage_path("materials/a.webp"), Ok(()));
    assert!(validate_material_photo_storage_path("HTTPS://example.com/a.webp").is_err());
    assert!(validate_material_photo_storage_path("gs://bucket/a.webp").is_err());
    assert_eq!(
        validate_material_photo_storage_path("materials/a b.webp"),
        Err("写真パスに空白文字は使用できません。".to_owned())
    );
    assert_eq!(validate_material_values("柘植", "Boxwood", "説明", "About", 3600, 0, ""), Ok(()));
    assert_eq!(
        validate_material_values("", "Boxwood", "説明", "About", 3600, 0, ""),
        Err("材質名（ja/en）は必須です。".to_owned())
    );
    assert_eq!(
        validate_material_values("柘植", "Boxwood", "説明", "", 3600, 0, ""),
        Err("説明文（ja/en）は必須です。".to_owned())
    );
    assert_eq!(
        validate_material_values("柘植", "Boxwood", "説明", "About", -1, 0, ""),
        Err("価格は 0 以上で入力してください。".to_owned())
    );
    assert_eq!(
        validate_material_values("柘植", "Boxwood", "説明", "About", 0, -1, ""),
        Err("表示順は 0 以上で入力してください。".to_owned())
    );
    assert!(validate_material_values("柘植", "Boxwood", "説明", "About", 0, 0, "a b").is_err());
}

#[test]
fn storefront_choices_are_normalized() {
    assert_eq!(shape_label("square"), Some("角印"));
    assert_eq!(shape_label("round"), Some("丸印"));
    assert_eq!(shape_label("oval"), None);
    assert_eq!(material_shape_label("round"), "丸印");
    assert_eq!(material_shape_label("anything"), "角印");
    assert_eq!(normalize_candidate_gender(" MALE "), "male");
    assert_eq!(normalize_candidate_gender("Female"), "female");
    assert_eq!(normalize_candidate_gender(""), "unspecified");
    assert_eq!(normalize_kanji_style(" Chinese"), "chinese");
    assert_eq!(normalize_kanji_style("TAIWANESE"), "taiwanese");
    assert_eq!(normalize_kanji_style("other"), "japanese");
    assert_eq!(validate_seal_lines(" 山 ", "田"), Ok(()));
    assert_eq!(validate_seal_lines("山田", ""), Ok(()));
    assert_eq!(validate_seal_lines(" ", "田"), Err("お名前を入力してください。".to_owned()));
    assert_eq!(validate_seal_lines("山 田", ""), Err("1行目に空白は使えません。".to_owned()));
    assert_eq!(validate_seal_lines("山", "田 中"), Err("2行目に空白は使えません。".to_owned()));
    assert_eq!(
        validate_seal_lines("山田", "中"),
        Err("印影テキストは1行目と2行目の合計で2文字以内で入力してください。".to_owned())
    );
}
