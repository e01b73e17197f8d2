use hanko_orders::admin::NamedTexts;
use hanko_orders::request::validate_create_order_request;
use hanko_orders::storefront::{
    generate_idempotency_key, plan_purchase, CatalogData, CountryOption, FontOption,
    MaterialOption,
};
use hanko_orders::validation::is_valid_idempotency_key;

fn fields(items: &[(&str, &str)]) -> NamedTexts {
    items.iter().map(|(k, v)| ((*k).to_owned(), (*v).to_owned())).collect()
}

fn stock(key: &str, label: &str, shape: &str, price: i64) -> MaterialOption {
    MaterialOption {
        key: key.to_owned(),
        label: label.to_owned(),
        description: String::new(),
        shape: shape.to_owned(),
        shape_label: String::new(),
        price,
        price_display: String::new(),
        photo_url: String::new(),
        photo_alt: String::new(),
        has_photo: false,
    }
}

fn offer() -> CatalogData {
    CatalogData {
        fonts: vec![FontOption {
            key: "zen_maru_gothic".to_owned(),
            label: "Zen Maru Gothic".to_owned(),
            family: "Zen Maru Gothic".to_owned(),
            stylesheet_url: String::new(),
            kanji_style: "japanese".to_owned(),
        }],
        materials: vec![
            stock("boxwood", "Old boxwood", "square", 1),
            stock("titanium", "Titanium", "round", 9_800),
            stock("boxwood", "Boxwood", "square", 3_600),
        ],
        countries: vec![
            CountryOption { code: "JP".to_owned(), label: "日本".to_owned(), shipping: 600 },
            CountryOption { code: "US".to_owned(), label: "United States".to_owned(), shipping: 1_800 },
        ],
    }
}

fn filled() -> Vec<(&'static str, &'static str)> {
    vec![
        ("seal_line1", " 山 "),
        ("seal_line2", "田"),
        ("font", "zen_maru_gothic"),
        ("shape", "square"),
        ("material", "boxwood"),
        ("recipient_name", "山田 太郎"),
        ("phone", "09000001111"),
        ("country", "JP"),
        ("postal_code", "1000001"),
        ("state", "Tokyo"),
        ("city", "Chiyoda"),
        ("address_line1", "1-1-1"),
        ("address_line2", ""),
        ("email", "taro@example.com"),
        ("terms_agreed", "on"),
    ]
}

fn with(name: &str, value: &str) -> NamedTexts {
    let mut form = filled();
    for field in form.iter_mut() {
        if field.0 == name {
            field.1 = "";
        }
    }
    let mut form = fields(&form);
    for field in form.iter_mut() {
        if field.0 == name {
            field.1 = value.to_owned();
        }
    }
    form
}

fn refusal(name: &str, value: &str) -> String {
    plan_purchase(&with(name, value), &offer(), "ja", "web_0123456789").unwrap_err()
}

#[test]
fn purchase_becomes_a_request_for_the_order_api() {
    let purchase = plan_purchase(&fields(&filled()), &offer(), " JA ", "web_0123456789").unwrap();
    assert_eq!(purchase.font_label, "Zen Maru Gothic");
    assert_eq!(purchase.shape_label, "角印");
    assert_eq!(purchase.material_label, "Boxwood");
    assert_eq!(purchase.country_label, "日本");
    assert_eq!((purchase.subtotal, purchase.shipping, purchase.total), (3_600, 600, 4_200));
    let request = purchase.request;
    assert_eq!(request.channel, "web");
    assert_eq!(request.locale, "ja");
    assert_eq!(request.contact.preferred_locale, "ja");
    assert_eq!(request.idempotency_key, "web_0123456789");
    assert!(request.terms_agreed);
    assert_eq!(request.seal.line1, "山");
    assert_eq!(request.seal.line2, "田");
    assert_eq!(request.seal.shape, "square");
    assert_eq!(request.seal.font_key, "zen_maru_gothic");
    assert_eq!(request.material_key, "boxwood");
    assert_eq!(request.shipping.country_code, "JP");
    assert_eq!(request.shipping.recipient_name, "山田 太郎");
    assert_eq!(request.shipping.address_line2, "");
    assert_eq!(request.contact.email, "taro@example.com");
    assert!(validate_create_order_request(request).is_ok());
}

#[test]
fn purchase_is_refused_with_the_message_for_the_buyer() {
    assert_eq!(refusal("seal_line1", " "), "お名前を入力してください。");
    assert_eq!(
        refusal("seal_line1", "山田"),
        "印影テキストは1行目と2行目の合計で2文字以内で入力してください。"
    );
    assert_eq!(refusal("font", "unknown"), "フォントを選択してください。");
    assert_eq!(refusal("shape", "oval"), "印鑑の形状を選択してください。");
    assert_eq!(refusal("material", "ebony"), "材質を選択してください。");
    assert_eq!(refusal("material", "titanium"), "角印に対応する材質を選択してください。");
    assert_eq!(refusal("shape", "round"), "丸印に対応する材質を選択してください。");
    assert_eq!(refusal("country", "jp"), "配送先の国を選択してください。");
    assert_eq!(refusal("recipient_name", " "), "購入者名を入力してください。");
    assert_eq!(refusal("phone", ""), "電話番号を入力してください。");
    assert_eq!(refusal("postal_code", ""), "郵便番号を入力してください。");
    assert_eq!(refusal("state", ""), "都道府県 / 州を入力してください。");
    assert_eq!(refusal("city", ""), "市区町村 / City を入力してください。");
    assert_eq!(refusal("address_line1", ""), "住所1を入力してください。");
    assert_eq!(refusal("email", ""), "購入確認用のメールアドレスを入力してください。");
    assert_eq!(refusal("terms_agreed", "off"), "利用規約への同意が必要です。");
    assert_eq!(refusal("terms_agreed", ""), "利用規約への同意が必要です。");
    assert!(plan_purchase(&with("terms_agreed", "1"), &offer(), "ja", "k").is_ok());
    assert!(plan_purchase(&with("terms_agreed", " TRUE "), &offer(), "ja", "k").is_ok());

    let mut dear = offer();
    dear.materials[2].price = i64::MAX;
    assert_eq!(
        plan_purchase(&fields(&filled()), &dear, "ja", "k").unwrap_err(),
        "注文の作成に失敗しました。時間をおいて再度お試しください。"
    );
}

#[test]
fn drawn_idempotency_keys_are_valid_and_differ() {
    let first = generate_idempotency_key();
    let second = generate_idempotency_key();
    assert_ne!(first, second);
    for key in [first, second] {
        assert_eq!(key.len(), 36);
        assert!(key.starts_with("web_"));
        assert!(key[4..].chars().all(|c| c.is_ascii_digit() || ('a'..='f').contains(&c)));
        assert!(is_valid_idempotency_key(&key));
        assert_eq!(key.as_bytes()[16] as char, '4');
    }
}
