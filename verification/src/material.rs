use vstd::prelude::*;
use vstd::string::StringExecFns;
use crate::admin::{
    field_text, form_value, has_field, material_key_problem, material_values_problem,
    normalize_storage_path, text_named, validate_material_key, validate_material_values,
    NamedTexts,
};
use crate::locale::{
    distinct_locale_names, entries_view, lemma_text_less_is_asymmetric, lemma_text_less_is_transitive,
    lemma_text_less_splits, less_than, text_less, LocalizedText,
};
use crate::number::{parse_i64, parsed_i64};
use crate::order::Timestamp;
use crate::storage::{image_content_type, normalize_image_content_type, slice_text};
use crate::text::{chars_of, is_blank, same_text, skip_leading, trim, trimmed};

verus! {

/// A photo of a material.
#[derive(Debug)]
pub struct MaterialPhoto {
    pub asset_id: String,
    pub storage_path: String,
    pub alt_i18n: LocalizedText,
    pub sort_order: i64,
    pub is_primary: bool,
    pub width: i64,
    pub height: i64,
}

/// What a photo holds.
pub struct MaterialPhotoView {
    pub asset_id: Seq<char>,
    pub storage_path: Seq<char>,
    pub alt_i18n: Seq<(Seq<char>, Seq<char>)>,
    pub sort_order: i64,
    pub is_primary: bool,
    pub width: i64,
    pub height: i64,
}

impl View for MaterialPhoto {
    type V = MaterialPhotoView;

    open spec fn view(&self) -> MaterialPhotoView {
        MaterialPhotoView {
            asset_id: self.asset_id@,
            storage_path: self.storage_path@,
            alt_i18n: entries_view(self.alt_i18n@),
            sort_order: self.sort_order,
            is_primary: self.is_primary,
            width: self.width,
            height: self.height,
        }
    }
}

/// What a list of photos holds, photo by photo.
pub open spec fn photos_view(photos: Seq<MaterialPhoto>) -> Seq<MaterialPhotoView> {
    photos.map_values(|p: MaterialPhoto| p@)
}

/// The index of the first photo at or after `from` that is marked primary.
pub open spec fn first_primary(photos: Seq<MaterialPhotoView>, from: int) -> Option<int>
    decreases photos.len() - from,
{
    if from < 0 || from >= photos.len() {
        None
    } else if photos[from].is_primary {
        Some(from)
    } else {
        first_primary(photos, from + 1)
    }
}

/// The index of the photo that stands for a material: the first that is
/// marked primary, else the first.
pub open spec fn primary_index(photos: Seq<MaterialPhotoView>) -> int {
    match first_primary(photos, 0) {
        Some(i) => i,
        None => 0,
    }
}

fn primary_position(photos: &Vec<MaterialPhoto>) -> (r: usize)
    ensures
        r == primary_index(photos_view(photos@)),
        photos@.len() > 0 ==> r < photos@.len(),
{
    let mut i: usize = 0;
    while i < photos.len()
        invariant
            i <= photos@.len(),
            first_primary(photos_view(photos@), 0) == first_primary(photos_view(photos@), i as int),
        decreases photos@.len() - i,
    {
        assert(photos_view(photos@)[i as int] == photos@[i as int]@);
        if photos[i].is_primary {
            return i;
        }
        i += 1;
    }
    0
}

/// The photo that stands for a material, if it has any photo.
pub fn select_primary_material_photo(photos: &Vec<MaterialPhoto>) -> (r: Option<&MaterialPhoto>)
    ensures
        match r {
            Some(photo) => photos@.len() > 0 && *photo == photos@[primary_index(
                photos_view(photos@),
            )],
            None => photos@.len() == 0,
        },
{
    if photos.len() == 0 {
        return None;
    }
    let i: usize = primary_position(photos);
    Some(&photos[i])
}

/// The first `count` pairs of `pairs` without those named `name`.
pub open spec fn without_name(
    pairs: Seq<(Seq<char>, Seq<char>)>,
    name: Seq<char>,
    count: int,
) -> Seq<(Seq<char>, Seq<char>)>
    decreases count,
{
    if count <= 0 {
        Seq::<(Seq<char>, Seq<char>)>::empty()
    } else if pairs[count - 1].0 == name {
        without_name(pairs, name, count - 1)
    } else {
        without_name(pairs, name, count - 1).push(pairs[count - 1])
    }
}

/// Every pair that is left stood in `pairs`, none of them is named `name`,
/// and they keep their order.
pub proof fn lemma_without_name(pairs: Seq<(Seq<char>, Seq<char>)>, name: Seq<char>, count: int)
    requires
        0 <= count <= pairs.len(),
        distinct_locale_names(pairs),
    ensures
        distinct_locale_names(without_name(pairs, name, count)),
        forall|k: int|
            0 <= k < without_name(pairs, name, count).len() ==> {
                &&& (#[trigger] without_name(pairs, name, count)[k]).0 != name
                &&& exists|i: int|
                    0 <= i < count && pairs[i] == without_name(pairs, name, count)[k]
            },
    decreases count,
{
    if count > 0 {
        lemma_without_name(pairs, name, count - 1);
        let before = without_name(pairs, name, count - 1);
        let after = without_name(pairs, name, count);
        if pairs[count - 1].0 != name {
            assert forall|k: int| 0 <= k < after.len() implies {
                &&& (#[trigger] after[k]).0 != name
                &&& exists|i: int| 0 <= i < count && pairs[i] == after[k]
            } by {
                if k < before.len() {
                    assert(after[k] == before[k]);
                    let i = choose|i: int| 0 <= i < count - 1 && pairs[i] == before[k];
                    assert(pairs[i] == after[k]);
                } else {
                    assert(pairs[count - 1] == after[k]);
                }
            }
            assert forall|a: int, b: int| 0 <= a < b < after.len() implies after[a].0
                != after[b].0 by {
                if b < before.len() {
                    assert(after[a] == before[a] && after[b] == before[b]);
                } else {
                    assert(after[a] == before[a]);
                    let i = choose|i: int| 0 <= i < count - 1 && pairs[i] == before[a];
                    assert(pairs[i].0 != pairs[count - 1].0);
                }
            }
        } else {
            assert forall|k: int| 0 <= k < after.len() implies {
                &&& (#[trigger] after[k]).0 != name
                &&& exists|i: int| 0 <= i < count && pairs[i] == after[k]
            } by {
                let i = choose|i: int| 0 <= i < count - 1 && pairs[i] == before[k];
                assert(pairs[i] == after[k]);
            }
        }
    }
}

/// Setting a text keeps the locales of a text apart: no locale is named
/// twice afterwards where none was before.
pub proof fn lemma_with_text_keeps_names_apart(
    pairs: Seq<(Seq<char>, Seq<char>)>,
    name: Seq<char>,
    text: Seq<char>,
)
    requires
        distinct_locale_names(pairs),
    ensures
        distinct_locale_names(with_text(pairs, name, text)),
{
    lemma_without_name(pairs, name, pairs.len() as int);
}

/// `pairs` with the text under `name` set to `text`, trimmed; a blank text
/// takes the name out.
pub open spec fn with_text(
    pairs: Seq<(Seq<char>, Seq<char>)>,
    name: Seq<char>,
    text: Seq<char>,
) -> Seq<(Seq<char>, Seq<char>)> {
    let others = without_name(pairs, name, pairs.len() as int);
    if is_blank(text) {
        others
    } else {
        others.push((name, trimmed(text)))
    }
}

fn set_text(pairs: &LocalizedText, name: &str, text: &str) -> (r: LocalizedText)
    ensures
        entries_view(r@) == with_text(entries_view(pairs@), name@, text@),
{
    let mut out: LocalizedText = Vec::new();
    let mut i: usize = 0;
    assert(entries_view(out@) =~= Seq::<(Seq<char>, Seq<char>)>::empty());
    while i < pairs.len()
        invariant
            i <= pairs@.len(),
            entries_view(out@) == without_name(entries_view(pairs@), name@, i as int),
        decreases pairs@.len() - i,
    {
        assert(entries_view(pairs@)[i as int] == (pairs@[i as int].0@, pairs@[i as int].1@));
        if !same_text(pairs[i].0.as_str(), name) {
            let ghost before = entries_view(out@);
            let pair: (String, String) = (pairs[i].0.clone(), pairs[i].1.clone());
            out.push(pair);
            assert(entries_view(out@) =~= before.push((pair.0@, pair.1@)));
        }
        i += 1;
    }
    let value = trim(text);
    if !value.is_empty() {
        let ghost before = entries_view(out@);
        out.push((name.to_owned(), value.to_owned()));
        assert(entries_view(out@) =~= before.push((name@, value@)));
    }
    out
}

/// The asset id of the first photo of the material `material_key`.
pub open spec fn first_asset_id(material_key: Seq<char>) -> Seq<char> {
    "mat_"@ + material_key + "_01"@
}

fn asset_id_for(material_key: &str) -> (r: String)
    ensures
        r@ == first_asset_id(material_key@),
{
    let mut id: String = "mat_".to_owned();
    id.append(material_key);
    id.append("_01");
    id
}

/// The photos of a material that is given one photo: none for an empty
/// path, else the one photo, marked primary, with the alternative texts
/// that are not blank.
pub open spec fn single_photo(
    material_key: Seq<char>,
    storage_path: Seq<char>,
    alt_ja: Seq<char>,
    alt_en: Seq<char>,
) -> Seq<MaterialPhotoView> {
    if storage_path.len() == 0 {
        Seq::<MaterialPhotoView>::empty()
    } else {
        seq![
            MaterialPhotoView {
                asset_id: first_asset_id(material_key),
                storage_path,
                alt_i18n: with_text(
                    with_text(Seq::<(Seq<char>, Seq<char>)>::empty(), "ja"@, alt_ja),
                    "en"@,
                    alt_en,
                ),
                sort_order: 0,
                is_primary: true,
                width: 0,
                height: 0,
            },
        ]
    }
}

/// The photos of a material that is given one photo.
pub fn build_single_material_photos(
    material_key: &str,
    storage_path: &str,
    alt_ja: &str,
    alt_en: &str,
) -> (r: Vec<MaterialPhoto>)
    ensures
        photos_view(r@) == single_photo(material_key@, storage_path@, alt_ja@, alt_en@),
{
    let mut out: Vec<MaterialPhoto> = Vec::new();
    if storage_path.is_empty() {
        assert(photos_view(out@) =~= Seq::<MaterialPhotoView>::empty());
        return out;
    }
    let none: LocalizedText = Vec::new();
    assert(entries_view(none@) =~= Seq::<(Seq<char>, Seq<char>)>::empty());
    let photo = MaterialPhoto {
        asset_id: asset_id_for(material_key),
        storage_path: storage_path.to_owned(),
        alt_i18n: set_text(&set_text(&none, "ja", alt_ja), "en", alt_en),
        sort_order: 0,
        is_primary: true,
        width: 0,
        height: 0,
    };
    out.push(photo);
    assert(photos_view(out@) =~= single_photo(material_key@, storage_path@, alt_ja@, alt_en@));
    out
}

/// The primary photo after it was given a new path and new alternative
/// texts: an asset id that is blank is filled in.
pub open spec fn renewed_primary(
    photo: MaterialPhotoView,
    material_key: Seq<char>,
    storage_path: Seq<char>,
    alt_ja: Seq<char>,
    alt_en: Seq<char>,
) -> MaterialPhotoView {
    MaterialPhotoView {
        asset_id: if is_blank(photo.asset_id) {
            first_asset_id(material_key)
        } else {
            photo.asset_id
        },
        storage_path,
        alt_i18n: with_text(with_text(photo.alt_i18n, "ja"@, alt_ja), "en"@, alt_en),
        is_primary: true,
        ..photo
    }
}

/// The photos of a material after its primary photo was given a new path:
/// unchanged for an empty path; one new photo where there was none; else
/// the primary photo renewed, and no other photo marked primary.
pub open spec fn merged_photos(
    existing: Seq<MaterialPhotoView>,
    material_key: Seq<char>,
    storage_path: Seq<char>,
    alt_ja: Seq<char>,
    alt_en: Seq<char>,
) -> Seq<MaterialPhotoView> {
    if storage_path.len() == 0 {
        existing
    } else if existing.len() == 0 {
        single_photo(material_key, storage_path, alt_ja, alt_en)
    } else {
        Seq::new(
            existing.len(),
            |i: int|
                if i == primary_index(existing) {
                    renewed_primary(existing[i], material_key, storage_path, alt_ja, alt_en)
                } else {
                    MaterialPhotoView { is_primary: false, ..existing[i] }
                },
        )
    }
}

fn copy_texts(pairs: &LocalizedText) -> (r: LocalizedText)
    ensures
        entries_view(r@) == entries_view(pairs@),
{
    let mut out: LocalizedText = Vec::new();
    let mut i: usize = 0;
    while i < pairs.len()
        invariant
            i <= pairs@.len(),
            out@.len() == i,
            forall|j: int| 0 <= j < i ==> out@[j].0@ == pairs@[j].0@ && out@[j].1@ == pairs@[j].1@,
        decreases pairs@.len() - i,
    {
        out.push((pairs[i].0.clone(), pairs[i].1.clone()));
        i += 1;
    }
    assert(entries_view(out@) =~= entries_view(pairs@));
    out
}

impl Clone for MaterialPhoto {
    fn clone(&self) -> (r: Self)
        ensures
            r@ == self@,
    {
        MaterialPhoto {
            asset_id: self.asset_id.clone(),
            storage_path: self.storage_path.clone(),
            alt_i18n: copy_texts(&self.alt_i18n),
            sort_order: self.sort_order,
            is_primary: self.is_primary,
            width: self.width,
            height: self.height,
        }
    }
}

/// Gives the primary photo of a material a new path and new alternative texts.
pub fn merge_primary_material_photo(
    existing: &Vec<MaterialPhoto>,
    material_key: &str,
    storage_path: &str,
    alt_ja: &str,
    alt_en: &str,
) -> (r: Vec<MaterialPhoto>)
    ensures
        photos_view(r@) == merged_photos(
            photos_view(existing@),
            material_key@,
            storage_path@,
            alt_ja@,
            alt_en@,
        ),
{
    if !storage_path.is_empty() && existing.len() == 0 {
        assert(photos_view(existing@).len() == 0);
        return build_single_material_photos(material_key, storage_path, alt_ja, alt_en);
    }
    let primary: usize = primary_position(existing);
    let renew: bool = !storage_path.is_empty();
    let mut out: Vec<MaterialPhoto> = Vec::new();
    let mut i: usize = 0;
    while i < existing.len()
        invariant
            i <= existing@.len(),
            out@.len() == i,
            primary == primary_index(photos_view(existing@)),
            renew == (storage_path@.len() != 0),
            forall|j: int|
                0 <= j < i ==> (#[trigger] out@[j])@ == if !renew {
                    existing@[j]@
                } else if j == primary {
                    renewed_primary(existing@[j]@, material_key@, storage_path@, alt_ja@, alt_en@)
                } else {
                    MaterialPhotoView { is_primary: false, ..existing@[j]@ }
                },
        decreases existing@.len() - i,
    {
        let mut photo: MaterialPhoto = existing[i].clone();
        if renew {
            if i == primary {
                photo.storage_path = storage_path.to_owned();
                photo.alt_i18n = set_text(&set_text(&photo.alt_i18n, "ja", alt_ja), "en", alt_en);
                if trim(photo.asset_id.as_str()).is_empty() {
                    photo.asset_id = asset_id_for(material_key);
                }
                photo.is_primary = true;
            } else {
                photo.is_primary = false;
            }
        }
        out.push(photo);
        i += 1;
    }
    assert(photos_view(out@) =~= merged_photos(
        photos_view(existing@),
        material_key@,
        storage_path@,
        alt_ja@,
        alt_en@,
    ));
    out
}

/// What the form for a new material shows.
#[derive(Debug)]
pub struct MaterialCreateView {
    pub key: String,
    pub label_ja: String,
    pub label_en: String,
    pub description_ja: String,
    pub description_en: String,
    pub price_jpy: String,
    pub sort_order: String,
    pub photo_storage_path: String,
    pub photo_alt_ja: String,
    pub photo_alt_en: String,
    pub is_active: bool,
    pub message: String,
    pub has_message: bool,
    pub error: String,
    pub has_error: bool,
}

/// The empty form for a new material: price and sort order zero, the
/// material active.
pub fn new_material_create_view(message: &str, render_error: &str) -> (r: MaterialCreateView)
    ensures
        r.key@.len() == 0 && r.label_ja@.len() == 0 && r.label_en@.len() == 0,
        r.description_ja@.len() == 0 && r.description_en@.len() == 0,
        r.price_jpy@ == "0"@ && r.sort_order@ == "0"@,
        r.photo_storage_path@.len() == 0 && r.photo_alt_ja@.len() == 0 && r.photo_alt_en@.len()
            == 0,
        r.is_active,
        r.message@ == message@ && r.has_message == (message@.len() != 0),
        r.error@ == render_error@ && r.has_error == (render_error@.len() != 0),
{
    MaterialCreateView {
        key: String::new(),
        label_ja: String::new(),
        label_en: String::new(),
        description_ja: String::new(),
        description_en: String::new(),
        price_jpy: "0".to_owned(),
        sort_order: "0".to_owned(),
        photo_storage_path: String::new(),
        photo_alt_ja: String::new(),
        photo_alt_en: String::new(),
        is_active: true,
        message: message.to_owned(),
        has_message: !message.is_empty(),
        error: render_error.to_owned(),
        has_error: !render_error.is_empty(),
    }
}

/// The form for a new material, filled with what was sent: every field
/// trimmed, the material active where the form has the field `is_active`.
pub fn material_create_view_from_form(form: &NamedTexts, message: &str, render_error: &str) -> (r:
    MaterialCreateView)
    ensures
        r.key@ == field_text(form@, "key"@),
        r.label_ja@ == field_text(form@, "label_ja"@),
        r.label_en@ == field_text(form@, "label_en"@),
        r.description_ja@ == field_text(form@, "description_ja"@),
        r.description_en@ == field_text(form@, "description_en"@),
        r.price_jpy@ == field_text(form@, "price_jpy"@),
        r.sort_order@ == field_text(form@, "sort_order"@),
        r.photo_storage_path@ == field_text(form@, "photo_storage_path"@),
        r.photo_alt_ja@ == field_text(form@, "photo_alt_ja"@),
        r.photo_alt_en@ == field_text(form@, "photo_alt_en"@),
        r.is_active == (text_named(form@, "is_active"@, 0) is Some),
        r.message@ == message@ && r.has_message == (message@.len() != 0),
        r.error@ == render_error@ && r.has_error == (render_error@.len() != 0),
{
    MaterialCreateView {
        key: form_value(form, "key"),
        label_ja: form_value(form, "label_ja"),
        label_en: form_value(form, "label_en"),
        description_ja: form_value(form, "description_ja"),
        description_en: form_value(form, "description_en"),
        price_jpy: form_value(form, "price_jpy"),
        sort_order: form_value(form, "sort_order"),
        photo_storage_path: form_value(form, "photo_storage_path"),
        photo_alt_ja: form_value(form, "photo_alt_ja"),
        photo_alt_en: form_value(form, "photo_alt_en"),
        is_active: has_field(form, "is_active"),
        message: message.to_owned(),
        has_message: !message.is_empty(),
        error: render_error.to_owned(),
        has_error: !render_error.is_empty(),
    }
}

/// A material that seals are made of, as the admin console holds it.
#[derive(Debug)]
pub struct Material {
    pub key: String,
    pub label_i18n: LocalizedText,
    pub description_i18n: LocalizedText,
    pub photos: Vec<MaterialPhoto>,
    pub price_jpy: i64,
    pub is_active: bool,
    pub sort_order: i64,
    pub version: i64,
    pub updated_at: Timestamp,
}

/// What a material holds.
pub struct MaterialView {
    pub key: Seq<char>,
    pub label_i18n: Seq<(Seq<char>, Seq<char>)>,
    pub description_i18n: Seq<(Seq<char>, Seq<char>)>,
    pub photos: Seq<MaterialPhotoView>,
    pub price_jpy: i64,
    pub is_active: bool,
    pub sort_order: i64,
    pub version: i64,
    pub updated_at: Timestamp,
}

impl View for Material {
    type V = MaterialView;

    open spec fn view(&self) -> MaterialView {
        MaterialView {
            key: self.key@,
            label_i18n: entries_view(self.label_i18n@),
            description_i18n: entries_view(self.description_i18n@),
            photos: photos_view(self.photos@),
            price_jpy: self.price_jpy,
            is_active: self.is_active,
            sort_order: self.sort_order,
            version: self.version,
            updated_at: self.updated_at,
        }
    }
}

/// What a list of materials holds, material by material.
pub open spec fn materials_view(materials: Seq<Material>) -> Seq<MaterialView> {
    materials.map_values(|m: Material| m@)
}

/// The values that an operator gives a material.
#[derive(Debug)]
pub struct MaterialPatchInput {
    pub label_ja: String,
    pub label_en: String,
    pub description_ja: String,
    pub description_en: String,
    pub price_jpy: i64,
    pub sort_order: i64,
    pub photo_storage_path: String,
    pub photo_alt_ja: String,
    pub photo_alt_en: String,
    pub is_active: bool,
}

/// The key and the values that an operator gives a new material.
#[derive(Debug)]
pub struct MaterialCreateInput {
    pub key: String,
    pub label_ja: String,
    pub label_en: String,
    pub description_ja: String,
    pub description_en: String,
    pub price_jpy: i64,
    pub sort_order: i64,
    pub photo_storage_path: String,
    pub photo_alt_ja: String,
    pub photo_alt_en: String,
    pub is_active: bool,
}

/// The storage path of a photo as it is kept: trimmed, without the slashes
/// that it begins with.
pub open spec fn kept_path(photo_storage_path: Seq<char>) -> Seq<char> {
    skip_leading(trimmed(photo_storage_path), '/')
}

/// What is wrong with the values given to a material, if anything: they are
/// checked trimmed.
pub open spec fn patch_problem(input: MaterialPatchInput) -> Option<Seq<char>> {
    material_values_problem(
        trimmed(input.label_ja@),
        trimmed(input.label_en@),
        trimmed(input.description_ja@),
        trimmed(input.description_en@),
        input.price_jpy,
        input.sort_order,
        kept_path(input.photo_storage_path@),
    )
}

/// Whether no two materials of a snapshot have the same key: what a
/// snapshot keyed by material key holds by its making.
pub open spec fn distinct_material_keys(materials: Seq<MaterialView>) -> bool {
    forall|i: int, j: int| 0 <= i < j < materials.len() ==> materials[i].key != materials[j].key
}

/// In a snapshot without repeated keys, the material with a key is found
/// wherever it stands.
pub proof fn lemma_material_is_found(materials: Seq<MaterialView>, i: int, from: int)
    requires
        distinct_material_keys(materials),
        0 <= from <= i < materials.len(),
    ensures
        material_from(materials, materials[i].key, from) == Some(i),
    decreases i - from,
{
    if from < i {
        lemma_material_is_found(materials, i, from + 1);
    }
}

/// A key under which no material is found is the key of none.
pub proof fn lemma_material_is_absent(materials: Seq<MaterialView>, key: Seq<char>, from: int)
    requires
        0 <= from,
        material_from(materials, key, from) is None,
    ensures
        forall|i: int| from <= i < materials.len() ==> (#[trigger] materials[i]).key != key,
    decreases materials.len() - from,
{
    if from < materials.len() {
        lemma_material_is_absent(materials, key, from + 1);
    }
}

/// The index of the first material at or after `from` whose key is `key`.
pub open spec fn material_from(materials: Seq<MaterialView>, key: Seq<char>, from: int) -> Option<
    int,
>
    decreases materials.len() - from,
{
    if from < 0 || from >= materials.len() {
        None
    } else if materials[from].key == key {
        Some(from)
    } else {
        material_from(materials, key, from + 1)
    }
}

/// Finds the material with the key `key`.
pub fn find_material(materials: &Vec<Material>, key: &str) -> (r: Option<usize>)
    ensures
        match r {
            Some(i) => material_from(materials_view(materials@), key@, 0) == Some(i as int) && i
                < materials@.len(),
            None => material_from(materials_view(materials@), key@, 0) is None,
        },
{
    let mut i: usize = 0;
    while i < materials.len()
        invariant
            i <= materials@.len(),
            material_from(materials_view(materials@), key@, 0) == material_from(
                materials_view(materials@),
                key@,
                i as int,
            ),
        decreases materials@.len() - i,
    {
        assert(materials_view(materials@)[i as int] == materials@[i as int]@);
        if same_text(materials[i].key.as_str(), key) {
            return Some(i);
        }
        i += 1;
    }
    None
}

/// The number of the next version; the largest number stays.
pub open spec fn next_version(version: i64) -> i64 {
    if version < i64::MAX {
        (version + 1) as i64
    } else {
        version
    }
}

/// A material after an operator gave it new values at `now`: labels and
/// descriptions in Japanese and English are set, the primary photo follows
/// the path given, and the version counts up.
pub open spec fn material_after_patch(m: MaterialView, input: MaterialPatchInput, now: Timestamp) -> MaterialView {
    MaterialView {
        key: m.key,
        label_i18n: with_text(with_text(m.label_i18n, "ja"@, input.label_ja@), "en"@, input.label_en@),
        description_i18n: with_text(
            with_text(m.description_i18n, "ja"@, input.description_ja@),
            "en"@,
            input.description_en@,
        ),
        photos: merged_photos(
            m.photos,
            m.key,
            kept_path(input.photo_storage_path@),
            input.photo_alt_ja@,
            input.photo_alt_en@,
        ),
        price_jpy: input.price_jpy,
        is_active: input.is_active,
        sort_order: input.sort_order,
        version: next_version(m.version),
        updated_at: now,
    }
}

/// Why a material cannot be given new values, if it cannot: the values are
/// checked before the material is looked for.
pub open spec fn update_problem(
    materials: Seq<MaterialView>,
    key: Seq<char>,
    input: MaterialPatchInput,
) -> Option<Seq<char>> {
    if patch_problem(input) is Some {
        patch_problem(input)
    } else if material_from(materials, key, 0) is None {
        Some("材質が見つかりません。"@)
    } else {
        None
    }
}

/// Gives the material `key` of the snapshot new values. Where that is
/// refused, the snapshot stays as it was, and the error is the message for
/// the operator; otherwise that one material changes, and no other.
pub fn update_material(
    materials: &mut Vec<Material>,
    key: &str,
    input: MaterialPatchInput,
    now: Timestamp,
) -> (r: Result<(), String>)
    ensures
        distinct_material_keys(materials_view(old(materials)@)) ==> distinct_material_keys(
            materials_view(final(materials)@),
        ),
        match r {
            Ok(()) => {
                let i = material_from(materials_view(old(materials)@), key@, 0).unwrap();
                &&& update_problem(materials_view(old(materials)@), key@, input) is None
                &&& materials_view(final(materials)@) == materials_view(old(materials)@).update(
                    i,
                    material_after_patch(old(materials)@[i]@, input, now),
                )
            },
            Err(message) => {
                &&& update_problem(materials_view(old(materials)@), key@, input) == Some(message@)
                &&& materials_view(final(materials)@) == materials_view(old(materials)@)
            },
        },
{
    let photo_storage_path: String = normalize_storage_path(input.photo_storage_path.as_str());
    match validate_material_values(
        trim(input.label_ja.as_str()),
        trim(input.label_en.as_str()),
        trim(input.description_ja.as_str()),
        trim(input.description_en.as_str()),
        input.price_jpy,
        input.sort_order,
        photo_storage_path.as_str(),
    ) {
        Err(message) => {
            return Err(message);
        },
        Ok(()) => {},
    }
    let i: usize = match find_material(materials, key) {
        Some(i) => i,
        None => {
            return Err("材質が見つかりません。".to_owned());
        },
    };
    assert(materials_view(materials@)[i as int] == materials@[i as int]@);
    let mut material: Material = materials.remove(i);
    material.label_i18n = set_text(
        &set_text(&material.label_i18n, "ja", input.label_ja.as_str()),
        "en",
        input.label_en.as_str(),
    );
    material.description_i18n = set_text(
        &set_text(&material.description_i18n, "ja", input.description_ja.as_str()),
        "en",
        input.description_en.as_str(),
    );
    material.price_jpy = input.price_jpy;
    material.sort_order = input.sort_order;
    material.is_active = input.is_active;
    material.photos = merge_primary_material_photo(
        &material.photos,
        material.key.as_str(),
        photo_storage_path.as_str(),
        input.photo_alt_ja.as_str(),
        input.photo_alt_en.as_str(),
    );
    if material.version < i64::MAX {
        material.version = material.version + 1;
    }
    material.updated_at = now;
    materials.insert(i, material);
    proof {
        assert(final(materials)@ =~= old(materials)@.update(i as int, material));
        assert(materials_view(final(materials)@) =~= materials_view(old(materials)@).update(
            i as int,
            material@,
        ));
    }
    Ok(())
}

/// The material that an operator creates at `now`: version one, labels and
/// descriptions in Japanese and English, and one photo where a path is given.
pub open spec fn created_material(input: MaterialCreateInput, now: Timestamp) -> MaterialView {
    let none = Seq::<(Seq<char>, Seq<char>)>::empty();
    MaterialView {
        key: trimmed(input.key@),
        label_i18n: with_text(with_text(none, "ja"@, input.label_ja@), "en"@, input.label_en@),
        description_i18n: with_text(
            with_text(none, "ja"@, input.description_ja@),
            "en"@,
            input.description_en@,
        ),
        photos: single_photo(
            trimmed(input.key@),
            kept_path(input.photo_storage_path@),
            input.photo_alt_ja@,
            input.photo_alt_en@,
        ),
        price_jpy: input.price_jpy,
        is_active: input.is_active,
        sort_order: input.sort_order,
        version: 1,
        updated_at: now,
    }
}

/// What is wrong with the values given to a new material, if anything.
pub open spec fn create_values_problem(input: MaterialCreateInput) -> Option<Seq<char>> {
    material_values_problem(
        trimmed(input.label_ja@),
        trimmed(input.label_en@),
        trimmed(input.description_ja@),
        trimmed(input.description_en@),
        input.price_jpy,
        input.sort_order,
        kept_path(input.photo_storage_path@),
    )
}

/// Why a material cannot be created, if it cannot: the key is checked first,
/// then the values, then whether the key is taken.
pub open spec fn create_problem(materials: Seq<MaterialView>, input: MaterialCreateInput) -> Option<
    Seq<char>,
> {
    if material_key_problem(trimmed(input.key@)) is Some {
        material_key_problem(trimmed(input.key@))
    } else if create_values_problem(input) is Some {
        create_values_problem(input)
    } else if material_from(materials, trimmed(input.key@), 0) is Some {
        Some("同じ材質キーは既に存在します。"@)
    } else {
        None
    }
}

/// Adds a material to the snapshot. Where that is refused, the snapshot
/// stays as it was, and the error is the message for the operator.
pub fn create_material(materials: &mut Vec<Material>, input: MaterialCreateInput, now: Timestamp) -> (r:
    Result<(), String>)
    ensures
        distinct_material_keys(materials_view(old(materials)@)) ==> distinct_material_keys(
            materials_view(final(materials)@),
        ),
        match r {
            Ok(()) => {
                &&& create_problem(materials_view(old(materials)@), input) is None
                &&& materials_view(final(materials)@) == materials_view(old(materials)@).push(
                    created_material(input, now),
                )
            },
            Err(message) => {
                &&& create_problem(materials_view(old(materials)@), input) == Some(message@)
                &&& materials_view(final(materials)@) == materials_view(old(materials)@)
            },
        },
{
    let key: String = trim(input.key.as_str()).to_owned();
    match validate_material_key(key.as_str()) {
        Err(message) => {
            return Err(message);
        },
        Ok(()) => {},
    }
    let photo_storage_path: String = normalize_storage_path(input.photo_storage_path.as_str());
    match validate_material_values(
        trim(input.label_ja.as_str()),
        trim(input.label_en.as_str()),
        trim(input.description_ja.as_str()),
        trim(input.description_en.as_str()),
        input.price_jpy,
        input.sort_order,
        photo_storage_path.as_str(),
    ) {
        Err(message) => {
            return Err(message);
        },
        Ok(()) => {},
    }
    if find_material(materials, key.as_str()).is_some() {
        return Err("同じ材質キーは既に存在します。".to_owned());
    }
    proof {
        lemma_material_is_absent(materials_view(materials@), key@, 0);
    }
    let none: LocalizedText = Vec::new();
    assert(entries_view(none@) =~= Seq::<(Seq<char>, Seq<char>)>::empty());
    let material = Material {
        label_i18n: set_text(
            &set_text(&none, "ja", input.label_ja.as_str()),
            "en",
            input.label_en.as_str(),
        ),
        description_i18n: set_text(
            &set_text(&none, "ja", input.description_ja.as_str()),
            "en",
            input.description_en.as_str(),
        ),
        photos: build_single_material_photos(
            key.as_str(),
            photo_storage_path.as_str(),
            input.photo_alt_ja.as_str(),
            input.photo_alt_en.as_str(),
        ),
        key,
        price_jpy: input.price_jpy,
        is_active: input.is_active,
        sort_order: input.sort_order,
        version: 1,
        updated_at: now,
    };
    let ghost created = material@;
    materials.push(material);
    assert(materials_view(final(materials)@) =~= materials_view(old(materials)@).push(created));
    Ok(())
}

/// Why a material cannot be deleted, if it cannot.
pub open spec fn delete_problem(materials: Seq<MaterialView>, key: Seq<char>) -> Option<Seq<char>> {
    if trimmed(key).len() == 0 {
        Some("材質キーが不正です。"@)
    } else if material_from(materials, trimmed(key), 0) is None {
        Some("材質が見つかりません。"@)
    } else {
        None
    }
}

/// Takes the material `key` out of the snapshot. Where that is refused, the
/// snapshot stays as it was, and the error is the message for the operator.
pub fn delete_material(materials: &mut Vec<Material>, key: &str) -> (r: Result<(), String>)
    ensures
        distinct_material_keys(materials_view(old(materials)@)) ==> distinct_material_keys(
            materials_view(final(materials)@),
        ),
        match r {
            Ok(()) => {
                let i = material_from(materials_view(old(materials)@), trimmed(key@), 0).unwrap();
                &&& delete_problem(materials_view(old(materials)@), key@) is None
                &&& materials_view(final(materials)@) == materials_view(old(materials)@).remove(i)
            },
            Err(message) => {
                &&& delete_problem(materials_view(old(materials)@), key@) == Some(message@)
                &&& materials_view(final(materials)@) == materials_view(old(materials)@)
            },
        },
{
    let normalized_key = trim(key);
    if normalized_key.is_empty() {
        return Err("材質キーが不正です。".to_owned());
    }
    let i: usize = match find_material(materials, normalized_key) {
        Some(i) => i,
        None => {
            return Err("材質が見つかりません。".to_owned());
        },
    };
    materials.remove(i);
    assert(materials_view(final(materials)@) =~= materials_view(old(materials)@).remove(i as int));
    Ok(())
}

/// The largest photo that may be uploaded, in bytes.
pub const MAX_PHOTO_UPLOAD_BYTES: usize = 10 * 1024 * 1024;

/// Why a photo cannot be uploaded, if it cannot: the material's key is
/// checked first, then the size of the file, then its type.
pub open spec fn upload_problem(
    material_key: Seq<char>,
    file_name: Seq<char>,
    content_type: Option<Seq<char>>,
    size: usize,
) -> Option<Seq<char>> {
    if material_key_problem(trimmed(material_key)) is Some {
        material_key_problem(trimmed(material_key))
    } else if size == 0 {
        Some("画像ファイルが空です。"@)
    } else if size > MAX_PHOTO_UPLOAD_BYTES {
        Some("画像サイズは 10MB 以下にしてください。"@)
    } else if image_content_type(file_name, content_type) is None {
        Some("対応していない画像形式です。png / jpg / webp / gif / avif を利用してください。"@)
    } else {
        None
    }
}

/// Checks a photo that an operator uploads for a material; `size` is the
/// number of its bytes. Returns the material's key, trimmed, and the type
/// of the image; the error is the message for the operator.
pub fn check_photo_upload(
    material_key: &str,
    file_name: &str,
    content_type: Option<&str>,
    size: usize,
) -> (r: Result<(String, &'static str), String>)
    ensures
        match r {
            Ok((key, image_type)) => {
                &&& upload_problem(material_key@, file_name@, slice_text(content_type), size)
                    is None
                &&& key@ == trimmed(material_key@)
                &&& image_content_type(file_name@, slice_text(content_type)) == Some(image_type@)
            },
            Err(message) => upload_problem(
                material_key@,
                file_name@,
                slice_text(content_type),
                size,
            ) == Some(message@),
        },
{
    let key: String = trim(material_key).to_owned();
    match validate_material_key(key.as_str()) {
        Err(message) => {
            return Err(message);
        },
        Ok(()) => {},
    }
    if size == 0 {
        return Err("画像ファイルが空です。".to_owned());
    }
    if size > MAX_PHOTO_UPLOAD_BYTES {
        return Err("画像サイズは 10MB 以下にしてください。".to_owned());
    }
    match normalize_image_content_type(file_name, content_type) {
        Some(image_type) => Ok((key, image_type)),
        None => Err(
            "対応していない画像形式です。png / jpg / webp / gif / avif を利用してください。".to_owned(),
        ),
    }
}

/// Whether the material `a` is shown before `b`: the lower sort order
/// first, and of materials with the same sort order the lesser key.
pub open spec fn shown_before(a: MaterialView, b: MaterialView) -> bool {
    a.sort_order < b.sort_order || (a.sort_order == b.sort_order && text_less(a.key, b.key))
}

/// Whether `order` lists the first `count` positions of `materials`, each
/// once, in the order in which the materials are shown; positions of
/// materials of which neither is shown before the other stay in their order.
pub open spec fn lists_in_display_order(
    materials: Seq<MaterialView>,
    order: Seq<usize>,
    count: int,
) -> bool {
    &&& order.len() == count
    &&& forall|i: int| 0 <= i < order.len() ==> (#[trigger] order[i]) < count
    &&& forall|i: int, j: int| 0 <= i < j < order.len() ==> order[i] != order[j]
    &&& forall|i: int, j: int|
        0 <= i < j < order.len() ==> !shown_before(
            materials[order[j] as int],
            materials[order[i] as int],
        )
    &&& forall|i: int, j: int|
        0 <= i < j < order.len() && !shown_before(
            materials[order[i] as int],
            materials[order[j] as int],
        ) ==> order[i] < order[j]
}

fn is_shown_before(a: &Material, b: &Material) -> (r: bool)
    ensures
        r == shown_before(a@, b@),
{
    if a.sort_order != b.sort_order {
        return a.sort_order < b.sort_order;
    }
    less_than(&chars_of(a.key.as_str()), &chars_of(b.key.as_str()))
}

/// Showing before is transitive; of two materials at most one is shown
/// before the other; and where `a` is shown before `c`, any `b` is shown
/// after `a` or before `c`.
pub proof fn lemma_display_order(a: MaterialView, b: MaterialView, c: MaterialView)
    ensures
        shown_before(a, b) && shown_before(b, c) ==> shown_before(a, c),
        shown_before(a, b) ==> !shown_before(b, a),
        shown_before(a, c) ==> shown_before(a, b) || shown_before(b, c),
{
    if shown_before(a, b) && a.sort_order == b.sort_order {
        lemma_text_less_is_asymmetric(a.key, b.key);
        if shown_before(b, c) && b.sort_order == c.sort_order {
            lemma_text_less_is_transitive(a.key, b.key, c.key);
        }
    }
    if shown_before(a, c) && a.sort_order == c.sort_order {
        lemma_text_less_splits(a.key, b.key, c.key);
    }
}

/// Whether `keys` are the keys of `materials` at the positions `order`, and
/// `order` lists the materials in the order in which they are shown.
pub open spec fn keys_in_display_order(
    materials: Seq<Material>,
    order: Seq<usize>,
    keys: Seq<String>,
) -> bool {
    &&& lists_in_display_order(materials_view(materials), order, materials.len() as int)
    &&& keys.len() == materials.len()
    &&& forall|i: int|
        0 <= i < keys.len() ==> (#[trigger] keys[i])@ == materials[order[i] as int].key@
}

/// The keys of the materials of a snapshot in the order in which they are
/// shown: by sort order, then by key.
pub fn refresh_material_ids(materials: &Vec<Material>) -> (r: Vec<String>)
    ensures
        (exists|order: Seq<usize>| #[trigger] keys_in_display_order(materials@, order, r@)),
{
    let n: usize = materials.len();
    let ghost views = materials_view(materials@);
    let mut out: Vec<usize> = Vec::new();
    let mut k: usize = 0;
    while k < n
        invariant
            k <= n,
            n == materials@.len(),
            views == materials_view(materials@),
            lists_in_display_order(views, out@, k as int),
        decreases n - k,
    {
        let mut p: usize = 0;
        while p < out.len() && !is_shown_before(&materials[k], &materials[out[p]])
            invariant
                p <= out@.len(),
                k < n,
                n == materials@.len(),
                views == materials_view(materials@),
                lists_in_display_order(views, out@, k as int),
                forall|i: int| 0 <= i < p ==> !shown_before(views[k as int], views[out@[i] as int]),
            decreases out@.len() - p,
        {
            p += 1;
        }
        let ghost before = out@;
        out.insert(p, k);
        proof {
            let after = out@;
            assert(after == before.insert(p as int, k));
            assert forall|i: int| 0 <= i < after.len() implies (#[trigger] after[i]) < k + 1 by {
                if i < p {
                    assert(after[i] == before[i]);
                } else if i > p {
                    assert(after[i] == before[i - 1]);
                }
            }
            assert forall|i: int, j: int| 0 <= i < j < after.len() implies after[i] != after[j]
                && !shown_before(views[after[j] as int], views[after[i] as int]) && (!shown_before(
                views[after[i] as int],
                views[after[j] as int],
            ) ==> after[i] < after[j]) by {
                let a = if i < p {
                    i
                } else {
                    i - 1
                };
                let b = if j < p {
                    j
                } else {
                    j - 1
                };
                if i != p && j != p {
                    assert(after[i] == before[a] && after[j] == before[b]);
                    assert(a < b);
                } else if i == p {
                    assert(after[j] == before[b]);
                    assert(before[b] < k);
                    assert(shown_before(views[k as int], views[before[p as int] as int]));
                    lemma_display_order(
                        views[before[b] as int],
                        views[k as int],
                        views[before[p as int] as int],
                    );
                    lemma_display_order(
                        views[k as int],
                        views[before[b] as int],
                        views[before[p as int] as int],
                    );
                    if b > p {
                        assert(!shown_before(
                            views[before[b] as int],
                            views[before[p as int] as int],
                        ));
                    }
                } else {
                    assert(after[i] == before[a]);
                    assert(before[a] < k);
                }
            }
        }
        k += 1;
    }
    let mut keys: Vec<String> = Vec::new();
    let mut j: usize = 0;
    while j < out.len()
        invariant
            j <= out@.len(),
            out@.len() == materials@.len(),
            lists_in_display_order(materials_view(materials@), out@, materials@.len() as int),
            keys@.len() == j,
            forall|i: int| 0 <= i < j ==> (#[trigger] keys@[i])@ == materials@[out@[i] as int].key@,
        decreases out@.len() - j,
    {
        assert(out@[j as int] < materials@.len());
        keys.push(materials[out[j]].key.clone());
        j += 1;
    }
    assert(keys_in_display_order(materials@, out@, keys@));
    keys
}

/// What is wrong with the numbers of a material form, if anything: price
/// and sort order must be integers; the price is looked at first.
pub open spec fn form_numbers_problem(form: Seq<(String, String)>) -> Option<Seq<char>> {
    if parsed_i64(field_text(form, "price_jpy"@)) is None {
        Some("価格は整数で入力してください。"@)
    } else if parsed_i64(field_text(form, "sort_order"@)) is None {
        Some("表示順は整数で入力してください。"@)
    } else {
        None
    }
}

fn form_numbers(form: &NamedTexts) -> (r: Result<(i64, i64), String>)
    ensures
        match r {
            Ok((price_jpy, sort_order)) => {
                &&& form_numbers_problem(form@) is None
                &&& parsed_i64(field_text(form@, "price_jpy"@)) == Some(price_jpy)
                &&& parsed_i64(field_text(form@, "sort_order"@)) == Some(sort_order)
            },
            Err(message) => form_numbers_problem(form@) == Some(message@),
        },
{
    let price_jpy: i64 = match parse_i64(&chars_of(form_value(form, "price_jpy").as_str())) {
        Some(value) => value,
        None => {
            return Err("価格は整数で入力してください。".to_owned());
        },
    };
    let sort_order: i64 = match parse_i64(&chars_of(form_value(form, "sort_order").as_str())) {
        Some(value) => value,
        None => {
            return Err("表示順は整数で入力してください。".to_owned());
        },
    };
    Ok((price_jpy, sort_order))
}

/// Reads the values for a material from a form: every text trimmed, the
/// material active where the form has the field `is_active`. The error is
/// the message for the operator.
pub fn material_patch_from_form(form: &NamedTexts) -> (r: Result<MaterialPatchInput, String>)
    ensures
        match r {
            Ok(input) => {
                &&& form_numbers_problem(form@) is None
                &&& input.label_ja@ == field_text(form@, "label_ja"@)
                &&& input.label_en@ == field_text(form@, "label_en"@)
                &&& input.description_ja@ == field_text(form@, "description_ja"@)
                &&& input.description_en@ == field_text(form@, "description_en"@)
                &&& Some(input.price_jpy) == parsed_i64(field_text(form@, "price_jpy"@))
                &&& Some(input.sort_order) == parsed_i64(field_text(form@, "sort_order"@))
                &&& input.photo_storage_path@ == field_text(form@, "photo_storage_path"@)
                &&& input.photo_alt_ja@ == field_text(form@, "photo_alt_ja"@)
                &&& input.photo_alt_en@ == field_text(form@, "photo_alt_en"@)
                &&& input.is_active == (text_named(form@, "is_active"@, 0) is Some)
            },
            Err(message) => form_numbers_problem(form@) == Some(message@),
        },
{
    let (price_jpy, sort_order) = match form_numbers(form) {
        Ok(numbers) => numbers,
        Err(message) => {
            return Err(message);
        },
    };
    Ok(
        MaterialPatchInput {
            label_ja: form_value(form, "label_ja"),
            label_en: form_value(form, "label_en"),
            description_ja: form_value(form, "description_ja"),
            description_en: form_value(form, "description_en"),
            price_jpy,
            sort_order,
            photo_storage_path: form_value(form, "photo_storage_path"),
            photo_alt_ja: form_value(form, "photo_alt_ja"),
            photo_alt_en: form_value(form, "photo_alt_en"),
            is_active: has_field(form, "is_active"),
        },
    )
}

/// Reads the key and the values for a new material from a form. The error
/// is the message for the operator.
pub fn material_create_from_form(form: &NamedTexts) -> (r: Result<MaterialCreateInput, String>)
    ensures
        match r {
            Ok(input) => {
                &&& form_numbers_problem(form@) is None
                &&& input.key@ == field_text(form@, "key"@)
                &&& input.label_ja@ == field_text(form@, "label_ja"@)
                &&& input.label_en@ == field_text(form@, "label_en"@)
                &&& input.description_ja@ == field_text(form@, "description_ja"@)
                &&& input.description_en@ == field_text(form@, "description_en"@)
                &&& Some(input.price_jpy) == parsed_i64(field_text(form@, "price_jpy"@))
                &&& Some(input.sort_order) == parsed_i64(field_text(form@, "sort_order"@))
                &&& input.photo_storage_path@ == field_text(form@, "photo_storage_path"@)
                &&& input.photo_alt_ja@ == field_text(form@, "photo_alt_ja"@)
                &&& input.photo_alt_en@ == field_text(form@, "photo_alt_en"@)
                &&& input.is_active == (text_named(form@, "is_active"@, 0) is Some)
            },
            Err(message) => form_numbers_problem(form@) == Some(message@),
        },
{
    let (price_jpy, sort_order) = match form_numbers(form) {
        Ok(numbers) => numbers,
        Err(message) => {
            return Err(message);
        },
    };
    Ok(
        MaterialCreateInput {
            key: form_value(form, "key"),
            label_ja: form_value(form, "label_ja"),
            label_en: form_value(form, "label_en"),
            description_ja: form_value(form, "description_ja"),
            description_en: form_value(form, "description_en"),
            price_jpy,
            sort_order,
            photo_storage_path: form_value(form, "photo_storage_path"),
            photo_alt_ja: form_value(form, "photo_alt_ja"),
            photo_alt_en: form_value(form, "photo_alt_en"),
            is_active: has_field(form, "is_active"),
        },
    )
}

} // verus!
