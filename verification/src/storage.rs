use vstd::prelude::*;
use vstd::string::StringExecFns;
use crate::admin::{image_extension, image_extension_for_content_type};
use crate::crypto::{hex_encode, hex_encoded, random_uuid_bytes};
use crate::text::{
    ascii_lowercase, chars_of, copy_range, drop_trailing, find_last_char, last_index,
    same_text, skip_leading, skip_prefixes, strip_both, strip_prefixes, text_of,
    to_ascii_lowercase, trim, trim_chars, trimmed,
};

verus! {

/// The name of a storage bucket: trimmed, without a `gs://` scheme in either
/// case, and without slashes at its ends.
pub open spec fn bucket_name(value: Seq<char>) -> Seq<char> {
    let bare = skip_prefixes(skip_prefixes(trimmed(value), "gs://"@), "GS://"@);
    drop_trailing(skip_leading(bare, '/'), '/')
}

/// The name of a storage bucket.
pub fn normalize_storage_bucket_name(value: &str) -> (r: String)
    ensures
        r@ == bucket_name(value@),
{
    let v: Vec<char> = chars_of(trim(value));
    let lower: Vec<char> = chars_of("gs://");
    let upper: Vec<char> = chars_of("GS://");
    let bare: Vec<char> = strip_prefixes(&strip_prefixes(&v, &lower), &upper);
    text_of(&strip_both(&bare, '/'))
}

/// The public address of an asset: nothing for an empty path; the path from
/// the root where no bucket is named; else the bucket's address with the path.
pub open spec fn asset_url(bucket: Seq<char>, storage_path: Seq<char>) -> Seq<char> {
    let path = skip_leading(trimmed(storage_path), '/');
    let name = drop_trailing(skip_leading(trimmed(bucket), '/'), '/');
    if path.len() == 0 {
        Seq::<char>::empty()
    } else if name.len() == 0 {
        "/"@ + path
    } else {
        "https://storage.googleapis.com/"@ + name + "/"@ + path
    }
}

/// The public address of the asset at `storage_path` in `bucket`.
pub fn make_asset_url(bucket: &str, storage_path: &str) -> (r: String)
    ensures
        r@ == asset_url(bucket@, storage_path@),
{
    let path: String = crate::text::strip_leading(trim(storage_path), '/');
    let name: String = text_of(&strip_both(&chars_of(trim(bucket)), '/'));
    if path.as_str().is_empty() {
        return String::new();
    }
    if name.as_str().is_empty() {
        let mut out: String = "/".to_owned();
        out.append(path.as_str());
        return out;
    }
    let mut out: String = "https://storage.googleapis.com/".to_owned();
    out.append(name.as_str());
    out.append("/");
    out.append(path.as_str());
    out
}

/// The image type that a MIME type names, if it names one that is accepted.
pub open spec fn image_type_of_mime(mime: Seq<char>) -> Option<Seq<char>> {
    if mime == "image/jpeg"@ || mime == "image/jpg"@ {
        Some("image/jpeg"@)
    } else if mime == "image/png"@ {
        Some("image/png"@)
    } else if mime == "image/webp"@ {
        Some("image/webp"@)
    } else if mime == "image/gif"@ {
        Some("image/gif"@)
    } else if mime == "image/avif"@ {
        Some("image/avif"@)
    } else {
        None
    }
}

/// The image type that a file extension stands for, if it stands for one
/// that is accepted.
pub open spec fn image_type_of_extension(extension: Seq<char>) -> Option<Seq<char>> {
    if extension == "jpg"@ || extension == "jpeg"@ {
        Some("image/jpeg"@)
    } else if extension == "png"@ {
        Some("image/png"@)
    } else if extension == "webp"@ {
        Some("image/webp"@)
    } else if extension == "gif"@ {
        Some("image/gif"@)
    } else if extension == "avif"@ {
        Some("image/avif"@)
    } else {
        None
    }
}

/// The extension of a file name: what stands after its last full stop,
/// trimmed and in lower case; empty where the name has none.
pub open spec fn file_extension(file_name: Seq<char>) -> Seq<char> {
    match last_index(file_name, '.') {
        Some(i) => ascii_lowercase(trimmed(file_name.subrange(i + 1, file_name.len() as int))),
        None => Seq::<char>::empty(),
    }
}

/// The content type of an uploaded image: the declared one where it is a
/// known image type, else the one that the file's extension stands for.
pub open spec fn image_content_type(file_name: Seq<char>, content_type: Option<Seq<char>>) -> Option<
    Seq<char>,
> {
    let declared = match content_type {
        Some(t) => image_type_of_mime(ascii_lowercase(trimmed(t))),
        None => None,
    };
    if declared is Some {
        declared
    } else {
        image_type_of_extension(file_extension(file_name))
    }
}

fn mime_image_type(mime: &str) -> (r: Option<&'static str>)
    ensures
        match r {
            Some(t) => image_type_of_mime(mime@) == Some(t@),
            None => image_type_of_mime(mime@) is None,
        },
{
    if same_text(mime, "image/jpeg") || same_text(mime, "image/jpg") {
        Some("image/jpeg")
    } else if same_text(mime, "image/png") {
        Some("image/png")
    } else if same_text(mime, "image/webp") {
        Some("image/webp")
    } else if same_text(mime, "image/gif") {
        Some("image/gif")
    } else if same_text(mime, "image/avif") {
        Some("image/avif")
    } else {
        None
    }
}

fn extension_image_type(extension: &str) -> (r: Option<&'static str>)
    ensures
        match r {
            Some(t) => image_type_of_extension(extension@) == Some(t@),
            None => image_type_of_extension(extension@) is None,
        },
{
    if same_text(extension, "jpg") || same_text(extension, "jpeg") {
        Some("image/jpeg")
    } else if same_text(extension, "png") {
        Some("image/png")
    } else if same_text(extension, "webp") {
        Some("image/webp")
    } else if same_text(extension, "gif") {
        Some("image/gif")
    } else if same_text(extension, "avif") {
        Some("image/avif")
    } else {
        None
    }
}

/// The text of an optional string slice.
pub open spec fn slice_text(text: Option<&str>) -> Option<Seq<char>> {
    match text {
        Some(t) => Some(t@),
        None => None,
    }
}

/// The content type of an uploaded image, if it is one that is accepted.
pub fn normalize_image_content_type(file_name: &str, content_type: Option<&str>) -> (r: Option<
    &'static str,
>)
    ensures
        match r {
            Some(t) => image_content_type(file_name@, slice_text(content_type)) == Some(t@),
            None => image_content_type(file_name@, slice_text(content_type)) is None,
        },
{
    match content_type {
        Some(declared) => {
            let lowered: String = text_of(&to_ascii_lowercase(&chars_of(trim(declared))));
            match mime_image_type(lowered.as_str()) {
                Some(t) => {
                    return Some(t);
                },
                None => {},
            }
        },
        None => {},
    }
    let name: Vec<char> = chars_of(file_name);
    let extension: String = match find_last_char(&name, '.') {
        Some(i) => text_of(
            &to_ascii_lowercase(&trim_chars(&copy_range(&name, i + 1, name.len()))),
        ),
        None => String::new(),
    };
    extension_image_type(extension.as_str())
}

/// The storage path of an uploaded photo for the asset id `id`: under the
/// material's directory, named after the asset, with the extension of its
/// image type; `webp` where the type is not accepted.
pub open spec fn uploaded_photo_path(
    material_key: Seq<char>,
    file_name: Seq<char>,
    content_type: Option<Seq<char>>,
    id: Seq<u8>,
) -> Seq<char> {
    let image_type = match image_content_type(file_name, content_type) {
        Some(t) => t,
        None => "image/webp"@,
    };
    "materials/"@ + material_key + "/mat_"@ + hex_encoded(id) + "."@ + image_extension(image_type)
}

/// Draws the storage path for a photo that is uploaded: its asset id is
/// `mat_` and a version-4 UUID in thirty-two hexadecimal digits.
pub fn build_storage_path_for_uploaded_photo(
    material_key: &str,
    file_name: &str,
    content_type: Option<&str>,
) -> (r: String)
    ensures
        (exists|id: Seq<u8>|
            id.len() == 16 && r@ == uploaded_photo_path(
                material_key@,
                file_name@,
                slice_text(content_type),
                id,
            )),
{
    let image_type: &'static str = match normalize_image_content_type(file_name, content_type) {
        Some(t) => t,
        None => "image/webp",
    };
    let id: Vec<u8> = random_uuid_bytes();
    let mut path: String = "materials/".to_owned();
    path.append(material_key);
    path.append("/mat_");
    path.append(hex_encode(id.as_slice()).as_str());
    path.append(".");
    path.append(image_extension_for_content_type(image_type));
    assert(path@ == uploaded_photo_path(
        material_key@,
        file_name@,
        slice_text(content_type),
        id@,
    ));
    path
}

} // verus!
