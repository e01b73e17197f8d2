use hanko_orders::admin::{country_label, form_value, has_field, NamedTexts};
use hanko_orders::locale::{less_than, LocalizedText};
use hanko_orders::material::{
    build_single_material_photos, check_photo_upload, create_material, delete_material,
    find_material, material_create_from_form, material_create_view_from_form,
    material_patch_from_form, refresh_material_ids, merge_primary_material_photo,
    new_material_create_view, select_primary_material_photo, update_material, Material,
    MaterialCreateInput, MaterialPatchInput, MaterialPhoto, MAX_PHOTO_UPLOAD_BYTES,
};
use hanko_orders::order::Timestamp;
use hanko_orders::storage::{
    build_storage_path_for_uploaded_photo, make_asset_url, normalize_image_content_type,
    normalize_storage_bucket_name,
};
use hanko_orders::storefront::{
    build_kanji_candidates_prompt, collect_font_stylesheet_urls, normalize_material_shape,
    validate_catalog, CatalogData, CatalogError, CountryOption, FontOption,
    GenerateKanjiCandidatesInput, MaterialOption,
};

fn named(items: &[(&str, &str)]) -> NamedTexts {
    items.iter().map(|(k, v)| ((*k).to_owned(), (*v).to_owned())).collect()
}

fn sorted(mut texts: LocalizedText) -> LocalizedText {
    texts.sort();
    texts
}

fn photo(asset_id: &str, path: &str, is_primary: bool) -> MaterialPhoto {
    MaterialPhoto {
        asset_id: asset_id.to_owned(),
        storage_path: path.to_owned(),
        alt_i18n: named(&[("ja", "旧"), ("fr", "vieux"), ("en", "old")]),
        sort_order: 3,
        is_primary,
        width: 640,
        height: 480,
    }
}

fn font(stylesheet_url: &str) -> FontOption {
    FontOption {
        key: "k".to_owned(),
        label: "l".to_owned(),
        family: "f".to_owned(),
        stylesheet_url: stylesheet_url.to_owned(),
        kanji_style: "japanese".to_owned(),
    }
}

#[test]
fn bucket_names_and_asset_urls_are_normalized() {
    assert_eq!(normalize_storage_bucket_name(" gs://assets/ "), "assets");
    assert_eq!(normalize_storage_bucket_name("gs://gs://GS://assets//"), "assets");
    assert_eq!(normalize_storage_bucket_name("GS://gs://assets"), "gs://assets");
    assert_eq!(normalize_storage_bucket_name("/assets/x/"), "assets/x");
    assert_eq!(normalize_storage_bucket_name("  "), "");
    assert_eq!(
        make_asset_url(" /assets/ ", " //materials/a.webp "),
        "https://storage.googleapis.com/assets/materials/a.webp"
    );
    assert_eq!(make_asset_url(" / ", "/materials/a.webp"), "/materials/a.webp");
    assert_eq!(make_asset_url("assets", " / "), "");
    assert_eq!(make_asset_url("assets", "a/b/"), "https://storage.googleapis.com/assets/a/b/");
}

#[test]
fn image_content_type_comes_from_type_or_extension() {
    assert_eq!(normalize_image_content_type("a.bin", Some(" IMAGE/JPG ")), Some("image/jpeg"));
    assert_eq!(normalize_image_content_type("a.bin", Some("image/png")), Some("image/png"));
    assert_eq!(normalize_image_content_type("a.bin", Some("image/webp")), Some("image/webp"));
    assert_eq!(normalize_image_content_type("a.bin", Some("image/gif")), Some("image/gif"));
    assert_eq!(normalize_image_content_type("a.bin", Some("image/avif")), Some("image/avif"));
    assert_eq!(normalize_image_content_type("a.PNG", Some("text/plain")), Some("image/png"));
    assert_eq!(normalize_image_content_type("a.b. JPEG ", Some("")), Some("image/jpeg"));
    assert_eq!(normalize_image_content_type("photo.webp", None), Some("image/webp"));
    assert_eq!(normalize_image_content_type("photo.gif", None), Some("image/gif"));
    assert_eq!(normalize_image_content_type("photo.avif", None), Some("image/avif"));
    assert_eq!(normalize_image_content_type("photo.jpg", None), Some("image/jpeg"));
    assert_eq!(normalize_image_content_type("photo", None), None);
    assert_eq!(normalize_image_content_type("jpg", None), None);
    assert_eq!(normalize_image_content_type("a.tiff", Some("image/tiff")), None);
}

#[test]
fn forms_and_labels_are_looked_up_by_name() {
    let form = named(&[("key", " boxwood "), ("is_active", ""), ("key", "other")]);
    assert_eq!(form_value(&form, "key"), "boxwood");
    assert_eq!(form_value(&form, "is_active"), "");
    assert_eq!(form_value(&form, "label_ja"), "");
    assert!(has_field(&form, "is_active"));
    assert!(!has_field(&form, "Key"));
    let countries = named(&[("JP", "日本"), ("US", " United States ")]);
    assert_eq!(country_label(&countries, "JP"), "日本");
    assert_eq!(country_label(&countries, "US"), " United States ");
    assert_eq!(country_label(&countries, "FR"), "FR");
}

#[test]
fn material_form_keeps_what_was_sent() {
    let empty = new_material_create_view("", "failed");
    assert_eq!(empty.key, "");
    assert_eq!(empty.price_jpy, "0");
    assert_eq!(empty.sort_order, "0");
    assert!(empty.is_active);
    assert!(!empty.has_message);
    assert!(empty.has_error);
    assert_eq!(empty.error, "failed");

    let form = named(&[
        ("key", " boxwood "),
        ("label_ja", "柘植"),
        ("label_en", "Boxwood"),
        ("description_ja", "説明"),
        ("description_en", "About"),
        ("price_jpy", " 3600"),
        ("sort_order", "2"),
        ("photo_storage_path", "materials/boxwood/a.webp"),
        ("photo_alt_ja", "写真"),
        ("photo_alt_en", "Photo"),
    ]);
    let view = material_create_view_from_form(&form, "saved", "");
    assert_eq!(view.key, "boxwood");
    assert_eq!(view.label_ja, "柘植");
    assert_eq!(view.label_en, "Boxwood");
    assert_eq!(view.description_ja, "説明");
    assert_eq!(view.description_en, "About");
    assert_eq!(view.price_jpy, "3600");
    assert_eq!(view.sort_order, "2");
    assert_eq!(view.photo_storage_path, "materials/boxwood/a.webp");
    assert_eq!(view.photo_alt_ja, "写真");
    assert_eq!(view.photo_alt_en, "Photo");
    assert!(!view.is_active);
    assert!(view.has_message);
    assert!(!view.has_error);
}

#[test]
fn primary_photo_is_the_marked_one_or_the_first() {
    let photos = vec![photo("a", "1", false), photo("b", "2", true), photo("c", "3", true)];
    assert_eq!(select_primary_material_photo(&photos).map(|p| p.asset_id.as_str()), Some("b"));
    let unmarked = vec![photo("a", "1", false), photo("b", "2", false)];
    assert_eq!(select_primary_material_photo(&unmarked).map(|p| p.asset_id.as_str()), Some("a"));
    assert!(select_primary_material_photo(&Vec::new()).is_none());
}

#[test]
fn single_photo_is_built_for_a_path() {
    assert!(build_single_material_photos("boxwood", "", "写真", "Photo").is_empty());
    let photos = build_single_material_photos("boxwood", "materials/a.webp", " 写真 ", " ");
    assert_eq!(photos.len(), 1);
    assert_eq!(photos[0].asset_id, "mat_boxwood_01");
    assert_eq!(photos[0].storage_path, "materials/a.webp");
    assert_eq!(photos[0].alt_i18n, named(&[("ja", "写真")]));
    assert_eq!(photos[0].sort_order, 0);
    assert!(photos[0].is_primary);
    assert_eq!((photos[0].width, photos[0].height), (0, 0));
}

#[test]
fn primary_photo_is_renewed_in_place() {
    let existing = vec![photo("a", "1", false), photo(" ", "2", true), photo("c", "3", true)];
    let merged = merge_primary_material_photo(&existing, "boxwood", "new.webp", " 新 ", "");
    assert_eq!(merged.len(), 3);
    assert_eq!(merged[0].storage_path, "1");
    assert!(!merged[0].is_primary);
    assert_eq!(merged[0].alt_i18n, existing[0].alt_i18n);
    assert_eq!(merged[1].storage_path, "new.webp");
    assert_eq!(merged[1].asset_id, "mat_boxwood_01");
    assert!(merged[1].is_primary);
    assert_eq!(
        sorted(merged[1].alt_i18n.clone()),
        sorted(named(&[("fr", "vieux"), ("ja", "新")]))
    );
    assert_eq!(merged[1].sort_order, 3);
    assert_eq!(merged[1].width, 640);
    assert_eq!(merged[2].storage_path, "3");
    assert_eq!(merged[2].asset_id, "c");
    assert!(!merged[2].is_primary);

    let unmarked = vec![photo("a", "1", false), photo("b", "2", false)];
    let merged = merge_primary_material_photo(&unmarked, "boxwood", "new.webp", "", " New ");
    assert_eq!(merged[0].storage_path, "new.webp");
    assert_eq!(merged[0].asset_id, "a");
    assert!(merged[0].is_primary);
    assert_eq!(sorted(merged[0].alt_i18n.clone()), sorted(named(&[("en", "New"), ("fr", "vieux")])));
    assert!(!merged[1].is_primary);

    let kept = merge_primary_material_photo(&existing, "boxwood", "", "x", "y");
    assert_eq!(kept.len(), 3);
    assert_eq!(kept[1].storage_path, "2");
    assert_eq!(kept[1].asset_id, " ");
    assert!(kept[2].is_primary);
    assert_eq!(kept[1].alt_i18n, existing[1].alt_i18n);

    let first = merge_primary_material_photo(&Vec::new(), "boxwood", "a.webp", "写真", "Photo");
    assert_eq!(first.len(), 1);
    assert_eq!(first[0].asset_id, "mat_boxwood_01");
    assert_eq!(first[0].alt_i18n, named(&[("ja", "写真"), ("en", "Photo")]));
    assert!(merge_primary_material_photo(&Vec::new(), "boxwood", "", "", "").is_empty());
}

#[test]
fn catalog_must_offer_something_of_each_kind() {
    let catalog = |fonts: usize, materials: usize, countries: usize| CatalogData {
        fonts: (0..fonts).map(|_| font("")).collect(),
        materials: (0..materials)
            .map(|_| MaterialOption {
                key: "boxwood".to_owned(),
                label: "Boxwood".to_owned(),
                description: String::new(),
                shape: "square".to_owned(),
                shape_label: "角印".to_owned(),
                price: 3_600,
                price_display: "3,600".to_owned(),
                photo_url: String::new(),
                photo_alt: String::new(),
                has_photo: false,
            })
            .collect(),
        countries: (0..countries)
            .map(|_| CountryOption { code: "JP".to_owned(), label: "日本".to_owned(), shipping: 600 })
            .collect(),
    };
    assert_eq!(validate_catalog(&catalog(1, 1, 1)), Ok(()));
    assert_eq!(validate_catalog(&catalog(0, 0, 0)), Err(CatalogError::NoFonts));
    assert_eq!(validate_catalog(&catalog(1, 0, 0)), Err(CatalogError::NoMaterials));
    assert_eq!(validate_catalog(&catalog(2, 1, 0)), Err(CatalogError::NoCountries));
    assert_eq!(CatalogError::NoFonts.message(), "catalog validation failed: fonts is empty");
    assert_eq!(
        CatalogError::NoMaterials.message(),
        "catalog validation failed: materials is empty"
    );
    assert_eq!(
        CatalogError::NoCountries.message(),
        "catalog validation failed: countries is empty"
    );
}

#[test]
fn stylesheets_are_listed_once() {
    let fonts = vec![font(" a.css "), font(""), font("b.css"), font("a.css"), font(" ")];
    assert_eq!(collect_font_stylesheet_urls(&fonts), vec!["a.css".to_owned(), "b.css".to_owned()]);
    assert!(collect_font_stylesheet_urls(&Vec::new()).is_empty());
}

#[test]
fn material_shape_is_round_or_square() {
    assert_eq!(normalize_material_shape(" ROUND "), "round");
    assert_eq!(normalize_material_shape("round"), "round");
    assert_eq!(normalize_material_shape("square"), "square");
    assert_eq!(normalize_material_shape(""), "square");
}

#[test]
fn kanji_prompt_names_count_name_and_language() {
    let prompt = build_kanji_candidates_prompt(&GenerateKanjiCandidatesInput {
        real_name: "Michael Smith".to_owned(),
        reason_language: "en".to_owned(),
        count: 6,
    });
    let expected = format!(
        "Generate {} unique Japanese name candidates for a hanko seal.\n\
Input name: \"{}\"\n\
For each candidate, return these fields:\n\
- kanji: 1-2 Japanese Kanji characters (no spaces)\n\
- reading_hiragana: reading in hiragana\n\
- reading_romaji: reading in lowercase romaji\n\
- reason: why this Kanji name was chosen, written in {}\n\
Return only JSON (no markdown, no explanation) in this exact shape:\n\
{{\"candidates\":[{{\"kanji\":\"\",\"reading_hiragana\":\"\",\"reading_romaji\":\"\",\"reason\":\"\"}}]}}",
        6, "Michael Smith", "en"
    );
    assert_eq!(prompt, expected);
}

fn create_input(key: &str) -> MaterialCreateInput {
    MaterialCreateInput {
        key: key.to_owned(),
        label_ja: " 柘植 ".to_owned(),
        label_en: "Boxwood".to_owned(),
        description_ja: "説明".to_owned(),
        description_en: " About ".to_owned(),
        price_jpy: 3_600,
        sort_order: 2,
        photo_storage_path: " /materials/boxwood/a.webp ".to_owned(),
        photo_alt_ja: "写真".to_owned(),
        photo_alt_en: " ".to_owned(),
        is_active: true,
    }
}

fn patch_input() -> MaterialPatchInput {
    MaterialPatchInput {
        label_ja: "チタン".to_owned(),
        label_en: " Titanium ".to_owned(),
        description_ja: "軽い".to_owned(),
        description_en: "Light".to_owned(),
        price_jpy: 9_800,
        sort_order: 1,
        photo_storage_path: "".to_owned(),
        photo_alt_ja: "".to_owned(),
        photo_alt_en: "".to_owned(),
        is_active: false,
    }
}

fn at(seconds: i64) -> Timestamp {
    Timestamp { seconds, nanos: 0 }
}

#[test]
fn material_is_created_once() {
    let mut materials: Vec<Material> = Vec::new();
    assert_eq!(create_material(&mut materials, create_input(" boxwood "), at(5)), Ok(()));
    assert_eq!(materials.len(), 1);
    let m = &materials[0];
    assert_eq!(m.key, "boxwood");
    assert_eq!(m.label_i18n, named(&[("ja", "柘植"), ("en", "Boxwood")]));
    assert_eq!(m.description_i18n, named(&[("ja", "説明"), ("en", "About")]));
    assert_eq!(m.photos.len(), 1);
    assert_eq!(m.photos[0].storage_path, "materials/boxwood/a.webp");
    assert_eq!(m.photos[0].asset_id, "mat_boxwood_01");
    assert_eq!(m.photos[0].alt_i18n, named(&[("ja", "写真")]));
    assert_eq!((m.price_jpy, m.sort_order, m.is_active, m.version), (3_600, 2, true, 1));
    assert_eq!(m.updated_at, at(5));

    assert_eq!(
        create_material(&mut materials, create_input("boxwood"), at(6)),
        Err("同じ材質キーは既に存在します。".to_owned())
    );
    assert_eq!(
        create_material(&mut materials, create_input("Box"), at(6)),
        Err("材質キーは英小文字・数字・ハイフン・アンダースコアのみ使用できます。".to_owned())
    );
    let mut unnamed = create_input("titanium");
    unnamed.label_en = " ".to_owned();
    assert_eq!(
        create_material(&mut materials, unnamed, at(6)),
        Err("材質名（ja/en）は必須です。".to_owned())
    );
    assert_eq!(materials.len(), 1);
    assert_eq!(find_material(&materials, "boxwood"), Some(0));
    assert_eq!(find_material(&materials, "titanium"), None);
}

#[test]
fn material_is_updated_in_place() {
    let mut materials: Vec<Material> = Vec::new();
    create_material(&mut materials, create_input("boxwood"), at(5)).unwrap();
    create_material(&mut materials, create_input("titanium"), at(5)).unwrap();

    assert_eq!(update_material(&mut materials, "titanium", patch_input(), at(9)), Ok(()));
    assert_eq!(materials[0].version, 1);
    assert_eq!(materials[0].price_jpy, 3_600);
    let m = &materials[1];
    assert_eq!(m.key, "titanium");
    assert_eq!(sorted(m.label_i18n.clone()), sorted(named(&[("ja", "チタン"), ("en", "Titanium")])));
    assert_eq!(sorted(m.description_i18n.clone()), sorted(named(&[("ja", "軽い"), ("en", "Light")])));
    assert_eq!((m.price_jpy, m.sort_order, m.is_active, m.version), (9_800, 1, false, 2));
    assert_eq!(m.updated_at, at(9));
    assert_eq!(m.photos[0].storage_path, "materials/boxwood/a.webp");

    let mut with_photo = patch_input();
    with_photo.photo_storage_path = "/materials/titanium/b.webp".to_owned();
    with_photo.photo_alt_en = "Photo".to_owned();
    assert_eq!(update_material(&mut materials, "titanium", with_photo, at(10)), Ok(()));
    assert_eq!(materials[1].version, 3);
    assert_eq!(materials[1].photos[0].storage_path, "materials/titanium/b.webp");
    assert_eq!(materials[1].photos[0].alt_i18n, named(&[("en", "Photo")]));

    assert_eq!(
        update_material(&mut materials, "ebony", patch_input(), at(11)),
        Err("材質が見つかりません。".to_owned())
    );
    let mut negative = patch_input();
    negative.price_jpy = -1;
    assert_eq!(
        update_material(&mut materials, "ebony", negative, at(11)),
        Err("価格は 0 以上で入力してください。".to_owned())
    );
    materials[1].version = i64::MAX;
    assert_eq!(update_material(&mut materials, "titanium", patch_input(), at(12)), Ok(()));
    assert_eq!(materials[1].version, i64::MAX);
}

#[test]
fn material_is_deleted_by_key() {
    let mut materials: Vec<Material> = Vec::new();
    create_material(&mut materials, create_input("boxwood"), at(5)).unwrap();
    create_material(&mut materials, create_input("titanium"), at(5)).unwrap();
    assert_eq!(delete_material(&mut materials, "  "), Err("材質キーが不正です。".to_owned()));
    assert_eq!(delete_material(&mut materials, "ebony"), Err("材質が見つかりません。".to_owned()));
    assert_eq!(materials.len(), 2);
    assert_eq!(delete_material(&mut materials, " boxwood "), Ok(()));
    assert_eq!(materials.len(), 1);
    assert_eq!(materials[0].key, "titanium");
}

#[test]
fn photo_upload_is_checked() {
    assert_eq!(
        check_photo_upload(" boxwood ", "a.PNG", None, 1),
        Ok(("boxwood".to_owned(), "image/png"))
    );
    assert_eq!(
        check_photo_upload("boxwood", "a.bin", Some("image/jpg"), MAX_PHOTO_UPLOAD_BYTES),
        Ok(("boxwood".to_owned(), "image/jpeg"))
    );
    assert_eq!(
        check_photo_upload("", "a.png", None, 1),
        Err("材質キーは必須です。".to_owned())
    );
    assert_eq!(
        check_photo_upload("boxwood", "a.png", None, 0),
        Err("画像ファイルが空です。".to_owned())
    );
    assert_eq!(
        check_photo_upload("boxwood", "a.png", None, MAX_PHOTO_UPLOAD_BYTES + 1),
        Err("画像サイズは 10MB 以下にしてください。".to_owned())
    );
    assert_eq!(
        check_photo_upload("boxwood", "a.txt", Some("text/plain"), 10),
        Err("対応していない画像形式です。png / jpg / webp / gif / avif を利用してください。"
            .to_owned())
    );
}

#[test]
fn uploaded_photo_gets_a_path_of_its_own() {
    let first = build_storage_path_for_uploaded_photo("boxwood", "a.PNG", None);
    let second = build_storage_path_for_uploaded_photo("boxwood", "a.PNG", None);
    assert_ne!(first, second);
    assert_eq!(first.len(), "materials/boxwood/mat_".len() + 32 + ".png".len());
    assert!(first.starts_with("materials/boxwood/mat_"));
    assert!(first.ends_with(".png"));
    let id = &first["materials/boxwood/mat_".len()..first.len() - 4];
    assert!(id.chars().all(|c| c.is_ascii_digit() || ('a'..='f').contains(&c)));
    assert!(build_storage_path_for_uploaded_photo("k", "a.bin", Some("image/jpg")).ends_with(".jpg"));
    assert!(build_storage_path_for_uploaded_photo("k", "a.bin", None).ends_with(".webp"));
}

#[test]
fn materials_are_shown_by_sort_order_then_key() {
    let mut materials: Vec<Material> = Vec::new();
    for (key, sort_order) in [("titanium", 2), ("boxwood", 1), ("ebony", 2), ("agate", 3), ("box", 1)] {
        let mut input = create_input(key);
        input.sort_order = sort_order;
        create_material(&mut materials, input, at(1)).unwrap();
    }
    assert_eq!(
        refresh_material_ids(&materials),
        vec!["box", "boxwood", "ebony", "titanium", "agate"]
    );
    assert!(refresh_material_ids(&Vec::new()).is_empty());
}

#[test]
fn strings_are_ordered_as_the_standard_library_orders_them() {
    let texts = ["", "a", "ab", "b", "B", "a-b", "a_b", "ä", "日本", "日", "z", "\u{10000}", "~"];
    for a in texts {
        for b in texts {
            let x: Vec<char> = a.chars().collect();
            let y: Vec<char> = b.chars().collect();
            assert_eq!(less_than(&x, &y), a < b, "{a:?} < {b:?}");
        }
    }
}

#[test]
fn material_forms_are_read() {
    let form = named(&[
        ("key", " boxwood "),
        ("label_ja", " 柘植 "),
        ("label_en", "Boxwood"),
        ("description_ja", "説明"),
        ("description_en", "About"),
        ("price_jpy", " 3600 "),
        ("sort_order", "-2"),
        ("photo_storage_path", " /a.webp "),
        ("photo_alt_ja", "写真"),
        ("is_active", "on"),
    ]);
    let patch = material_patch_from_form(&form).unwrap();
    assert_eq!(patch.label_ja, "柘植");
    assert_eq!(patch.label_en, "Boxwood");
    assert_eq!(patch.description_ja, "説明");
    assert_eq!(patch.description_en, "About");
    assert_eq!((patch.price_jpy, patch.sort_order), (3_600, -2));
    assert_eq!(patch.photo_storage_path, "/a.webp");
    assert_eq!(patch.photo_alt_ja, "写真");
    assert_eq!(patch.photo_alt_en, "");
    assert!(patch.is_active);
    let create = material_create_from_form(&form).unwrap();
    assert_eq!(create.key, "boxwood");
    assert_eq!((create.price_jpy, create.sort_order, create.is_active), (3_600, -2, true));

    let no_price = named(&[("price_jpy", "3,600"), ("sort_order", "x")]);
    assert_eq!(
        material_patch_from_form(&no_price).map(|_| ()),
        Err("価格は整数で入力してください。".to_owned())
    );
    let no_order = named(&[("price_jpy", "3600")]);
    assert_eq!(
        material_create_from_form(&no_order).map(|_| ()),
        Err("表示順は整数で入力してください。".to_owned())
    );
    let inactive = named(&[("price_jpy", "0"), ("sort_order", "0")]);
    assert!(!material_patch_from_form(&inactive).unwrap().is_active);
}
