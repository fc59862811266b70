//! Image attachments saved into a book workspace under `assets/images`.
use vstd::prelude::*;

use crate::html::flat_map_chars;
use crate::models::{provider_name, MessageAttachment, Provider};
use crate::paths::{
    components, component_views, extension_of_path, file_name, file_name_of, is_absolute,
    path_components, path_extension, Component, PathComponent,
};
use crate::text::{
    ascii_lower, ascii_lower_seq, chars_eq, chars_of, decimal, decimal_u64, is_ascii_alnum,
    is_ascii_alphanumeric, push_all, push_str, string_of, strip_prefix, strip_prefix_seq,
    to_ascii_lower, to_ascii_lowercase, trim, trim_char, trim_char_seq, trim_seq,
};

verus! {

broadcast use vstd::string::group_string_axioms;

/// The largest image, in bytes, that a book accepts.
pub const IMAGE_ATTACHMENT_BYTES_LIMIT: usize = 20971520;

/// Bytes fetched for an attachment, with what the provider said about them.
#[derive(Debug, Clone)]
pub struct DownloadedMedia {
    pub bytes: Vec<u8>,
    pub mime_type: Option<String>,
    pub provider_file_path: Option<String>,
}

/// An image written into the workspace, and how to refer to it from Markdown.
#[derive(Debug, Clone)]
pub struct SavedImageAttachment {
    pub workspace_relative_path: String,
    pub markdown: String,
    pub mime_type: String,
    pub original_filename: Option<String>,
    pub width: Option<u32>,
    pub height: Option<u32>,
    pub file_size: usize,
    pub caption: Option<String>,
}

/// Why an asset path was refused.
#[derive(Debug, Clone, Copy, PartialEq, Eq, Structural)]
pub enum AssetPathError {
    NotRelative,
    OutsideImagesDir,
    UnsafeComponent,
}

/// The message shown for an asset path error.
pub open spec fn asset_error_text(e: AssetPathError) -> Seq<char> {
    match e {
        AssetPathError::NotRelative => "asset path must be relative"@,
        AssetPathError::OutsideImagesDir => "asset path must stay under assets/images"@,
        AssetPathError::UnsafeComponent => "asset path contains an unsafe component"@,
    }
}

impl AssetPathError {
    /// The message shown for the error.
    pub fn message(&self) -> (r: &'static str)
        ensures
            r@ == asset_error_text(*self),
    {
        match self {
            AssetPathError::NotRelative => "asset path must be relative",
            AssetPathError::OutsideImagesDir => "asset path must stay under assets/images",
            AssetPathError::UnsafeComponent => "asset path contains an unsafe component",
        }
    }
}

/// Why an image attachment was refused.
#[derive(Debug, Clone, Copy, PartialEq, Eq, Structural)]
pub enum AttachmentError {
    TooLarge,
    UnsupportedMime,
    PathRefused(AssetPathError),
}

impl AttachmentError {
    /// The message shown for the error.
    pub fn message(&self) -> (r: &'static str)
        ensures
            r@ == match self {
                AttachmentError::TooLarge => "image attachment exceeds the 20 MB limit"@,
                AttachmentError::UnsupportedMime => "unsupported image MIME type for attachment"@,
                AttachmentError::PathRefused(e) => match e {
                    AssetPathError::NotRelative => "asset path must be relative"@,
                    AssetPathError::OutsideImagesDir => "asset path must stay under assets/images"@,
                    AssetPathError::UnsafeComponent => "asset path contains an unsafe component"@,
                },
            },
    {
        match self {
            AttachmentError::TooLarge => "image attachment exceeds the 20 MB limit",
            AttachmentError::UnsupportedMime => "unsupported image MIME type for attachment",
            AttachmentError::PathRefused(e) => e.message(),
        }
    }
}

/// Whether a component is the normal component `name`.
pub open spec fn is_named(c: PathComponent, name: Seq<char>) -> bool {
    c matches PathComponent::Normal(n) && n == name
}

/// The verdict on a workspace-relative asset path: relative, under `assets/images`, and made
/// of normal components only.
pub open spec fn asset_path_check(p: Seq<char>) -> Result<(), AssetPathError> {
    let cs = path_components(p);
    if is_absolute(p) {
        Err(AssetPathError::NotRelative)
    } else if !(cs.len() >= 2 && is_named(cs[0], "assets"@) && is_named(cs[1], "images"@)) {
        Err(AssetPathError::OutsideImagesDir)
    } else if exists|k: int| 2 <= k < cs.len() && !(#[trigger] cs[k] is Normal) {
        Err(AssetPathError::UnsafeComponent)
    } else {
        Ok(())
    }
}

fn component_is(c: &Component, name: &str) -> (r: bool)
    ensures
        r == is_named(c@, name@),
{
    match c {
        Component::Normal(n) => {
            let v = chars_of(name);
            chars_eq(n.as_slice(), v.as_slice())
        },
        _ => false,
    }
}

/// Checks that a workspace-relative path stays under `assets/images` with normal components.
pub fn ensure_workspace_asset_path(relative_path: &str) -> (r: Result<(), AssetPathError>)
    ensures
        r == asset_path_check(relative_path@),
{
    let p = chars_of(relative_path);
    if p.len() > 0 && p[0] == '/' {
        return Err(AssetPathError::NotRelative);
    }
    let cs = components(p.as_slice());
    let ghost cv = component_views(cs@);
    assert(cv.len() == cs@.len());
    if cs.len() < 2 {
        return Err(AssetPathError::OutsideImagesDir);
    }
    assert(cv[0] == cs@[0]@ && cv[1] == cs@[1]@);
    if !component_is(&cs[0], "assets") || !component_is(&cs[1], "images") {
        return Err(AssetPathError::OutsideImagesDir);
    }
    let mut k: usize = 2;
    while k < cs.len()
        invariant
            2 <= k <= cs.len(),
            cv == component_views(cs@),
            cv == path_components(relative_path@),
            cv.len() == cs@.len(),
            !is_absolute(relative_path@),
            is_named(cv[0], "assets"@) && is_named(cv[1], "images"@),
            forall|j: int| 2 <= j < k ==> (#[trigger] cv[j]) is Normal,
        decreases cs.len() - k,
    {
        assert(cv[k as int] == cs@[k as int]@);
        match &cs[k] {
            Component::Normal(_) => {},
            _ => {
                assert(!(cv[k as int] is Normal));
                return Err(AssetPathError::UnsafeComponent);
            },
        }
        k = k + 1;
    }
    Ok(())
}

/// The image MIME type for an already lower-cased extension.
pub open spec fn image_mime_for_ext(e: Seq<char>) -> Option<Seq<char>> {
    if e == "jpg"@ || e == "jpeg"@ {
        Some("image/jpeg"@)
    } else if e == "png"@ {
        Some("image/png"@)
    } else if e == "gif"@ {
        Some("image/gif"@)
    } else if e == "webp"@ {
        Some("image/webp"@)
    } else {
        None
    }
}

/// The content type served for an asset, by the lower-cased extension of its path.
pub open spec fn content_type_spec(p: Seq<char>) -> Option<Seq<char>> {
    match path_extension(p) {
        Some(e) => image_mime_for_ext(ascii_lower_seq(e)),
        None => None,
    }
}

fn eq_lit(v: &[char], lit: &str) -> (r: bool)
    ensures
        r == (v@ == lit@),
{
    let l = chars_of(lit);
    chars_eq(v, l.as_slice())
}

/// The content type of an image asset, by its extension; `None` for other files.
pub fn content_type_for_asset_path(relative_path: &str) -> (r: Option<&'static str>)
    ensures
        match r {
            Some(t) => content_type_spec(relative_path@) == Some(t@),
            None => content_type_spec(relative_path@) is None,
        },
{
    let p = chars_of(relative_path);
    match extension_of_path(p.as_slice()) {
        None => None,
        Some(e) => {
            let l = to_ascii_lowercase(e.as_slice());
            let l = l.as_slice();
            if eq_lit(l, "jpg") || eq_lit(l, "jpeg") {
                Some("image/jpeg")
            } else if eq_lit(l, "png") {
                Some("image/png")
            } else if eq_lit(l, "gif") {
                Some("image/gif")
            } else if eq_lit(l, "webp") {
                Some("image/webp")
            } else {
                None
            }
        },
    }
}

/// The file extension chosen for an image MIME type (already lower-cased).
pub open spec fn mime_image_extension(m: Seq<char>) -> Option<Seq<char>> {
    if m == "image/jpeg"@ || m == "image/jpg"@ {
        Some("jpg"@)
    } else if m == "image/png"@ {
        Some("png"@)
    } else if m == "image/gif"@ {
        Some("gif"@)
    } else if m == "image/webp"@ {
        Some("webp"@)
    } else {
        None
    }
}

/// The image types an attachment may have, by lower-cased MIME type.
pub open spec fn supported_image_mime(m: Seq<char>) -> bool {
    ||| m == "image/jpeg"@
    ||| m == "image/jpg"@
    ||| m == "image/png"@
    ||| m == "image/gif"@
    ||| m == "image/webp"@
}

/// An image with a MIME type is accepted exactly when the type, lower-cased, is one of
/// `image/jpeg`, `image/jpg`, `image/png`, `image/gif` and `image/webp`, and its file then
/// takes that type's extension, whatever its path or file name say.
pub proof fn law_supported_image_types(
    mime: Seq<char>,
    provider_file_path: Option<Seq<char>>,
    original_filename: Option<Seq<char>>,
)
    ensures
        image_extension_spec(Some(mime), provider_file_path, original_filename) is Ok
            <==> supported_image_mime(ascii_lower_seq(mime)),
        image_extension_spec(Some(mime), provider_file_path, original_filename) is Err
            ==> image_extension_spec(Some(mime), provider_file_path, original_filename)
            == Err::<Seq<char>, AttachmentError>(AttachmentError::UnsupportedMime),
        image_extension_spec(Some(mime), provider_file_path, original_filename) matches Ok(e)
            ==> Some(e) == mime_image_extension(ascii_lower_seq(mime)),
{
}

/// The canonical image extension for a file extension in any case.
pub open spec fn normalized_image_extension(e: Seq<char>) -> Option<Seq<char>> {
    let l = ascii_lower_seq(e);
    if l == "jpg"@ || l == "jpeg"@ {
        Some("jpg"@)
    } else if l == "png"@ {
        Some("png"@)
    } else if l == "gif"@ {
        Some("gif"@)
    } else if l == "webp"@ {
        Some("webp"@)
    } else {
        None
    }
}

/// The extension of the file name of a path, read as a path of its own.
pub open spec fn extension_from_path_spec(p: Seq<char>) -> Option<Seq<char>> {
    match file_name(p) {
        Some(f) => path_extension(f),
        None => None,
    }
}

/// The extension an image is saved under: from its MIME type when it has one (refused when
/// that type is not a supported image), otherwise from the provider's file path, or failing
/// that the original file name.
pub open spec fn image_extension_spec(
    mime_type: Option<Seq<char>>,
    provider_file_path: Option<Seq<char>>,
    original_filename: Option<Seq<char>>,
) -> Result<Seq<char>, AttachmentError> {
    match mime_type {
        Some(m) => match mime_image_extension(ascii_lower_seq(m)) {
            Some(e) => Ok(e),
            None => Err(AttachmentError::UnsupportedMime),
        },
        None => {
            let from_path = match provider_file_path {
                Some(p) => extension_from_path_spec(p),
                None => None,
            };
            let candidate = match from_path {
                Some(e) => Some(e),
                None => match original_filename {
                    Some(o) => extension_from_path_spec(o),
                    None => None,
                },
            };
            match candidate {
                Some(e) => match normalized_image_extension(e) {
                    Some(x) => Ok(x),
                    None => Err(AttachmentError::UnsupportedMime),
                },
                None => Err(AttachmentError::UnsupportedMime),
            }
        },
    }
}

/// The extension of the file name of a path.
pub fn extension_from_path(path: &str) -> (r: Option<String>)
    ensures
        match r {
            Some(e) => extension_from_path_spec(path@) == Some(e@),
            None => extension_from_path_spec(path@) is None,
        },
{
    let p = chars_of(path);
    match file_name_of(p.as_slice()) {
        Some(f) => match extension_of_path(f.as_slice()) {
            Some(e) => Some(string_of(e.as_slice())),
            None => None,
        },
        None => None,
    }
}

/// The canonical image extension for a file extension, if it names a supported image.
pub fn normalize_image_extension(extension: &str) -> (r: Option<&'static str>)
    ensures
        match r {
            Some(x) => normalized_image_extension(extension@) == Some(x@),
            None => normalized_image_extension(extension@) is None,
        },
{
    let e = chars_of(extension);
    let l = to_ascii_lowercase(e.as_slice());
    let l = l.as_slice();
    if eq_lit(l, "jpg") || eq_lit(l, "jpeg") {
        Some("jpg")
    } else if eq_lit(l, "png") {
        Some("png")
    } else if eq_lit(l, "gif") {
        Some("gif")
    } else if eq_lit(l, "webp") {
        Some("webp")
    } else {
        None
    }
}

/// The view of an optional string slice.
pub open spec fn opt_view(o: Option<&str>) -> Option<Seq<char>> {
    match o {
        Some(s) => Some(s@),
        None => None,
    }
}

/// The extension an image is saved under.
pub fn image_extension(
    mime_type: Option<&str>,
    provider_file_path: Option<&str>,
    original_filename: Option<&str>,
) -> (r: Result<&'static str, AttachmentError>)
    ensures
        match r {
            Ok(e) => image_extension_spec(
                opt_view(mime_type),
                opt_view(provider_file_path),
                opt_view(original_filename),
            ) == Ok::<Seq<char>, AttachmentError>(e@),
            Err(x) => image_extension_spec(
                opt_view(mime_type),
                opt_view(provider_file_path),
                opt_view(original_filename),
            ) == Err::<Seq<char>, AttachmentError>(x),
        },
{
    match mime_type {
        Some(m) => {
            let mv = chars_of(m);
            let l = to_ascii_lowercase(mv.as_slice());
            let l = l.as_slice();
            if eq_lit(l, "image/jpeg") || eq_lit(l, "image/jpg") {
                Ok("jpg")
            } else if eq_lit(l, "image/png") {
                Ok("png")
            } else if eq_lit(l, "image/gif") {
                Ok("gif")
            } else if eq_lit(l, "image/webp") {
                Ok("webp")
            } else {
                Err(AttachmentError::UnsupportedMime)
            }
        },
        None => {
            let from_path = match provider_file_path {
                Some(p) => extension_from_path(p),
                None => None,
            };
            let candidate = match from_path {
                Some(e) => Some(e),
                None => match original_filename {
                    Some(o) => extension_from_path(o),
                    None => None,
                },
            };
            match candidate {
                Some(e) => match normalize_image_extension(e.as_str()) {
                    Some(x) => Ok(x),
                    None => Err(AttachmentError::UnsupportedMime),
                },
                None => Err(AttachmentError::UnsupportedMime),
            }
        },
    }
}

/// A character kept in a file-name component: ASCII letters and digits, lower-cased; any
/// other character becomes `-`.
pub open spec fn sanitize_char(c: char) -> char {
    if is_ascii_alnum(c) {
        ascii_lower(c)
    } else {
        '-'
    }
}

/// `value` made safe as a file-name component; `message` when nothing is left.
pub open spec fn sanitize_component_spec(value: Seq<char>) -> Seq<char> {
    let t = trim_char_seq(value.map_values(|c: char| sanitize_char(c)), '-');
    if t.len() == 0 {
        "message"@
    } else {
        t
    }
}

/// `value` with every character mapped through `sanitize_char`.
pub fn sanitize_chars(value: &[char]) -> (r: Vec<char>)
    ensures
        r@ == value@.map_values(|c: char| sanitize_char(c)),
{
    let mut out: Vec<char> = Vec::new();
    let mut i: usize = 0;
    while i < value.len()
        invariant
            i <= value.len(),
            out@ == value@.take(i as int).map_values(|c: char| sanitize_char(c)),
        decreases value.len() - i,
    {
        let c = value[i];
        if is_ascii_alphanumeric(c) {
            out.push(to_ascii_lower(c));
        } else {
            out.push('-');
        }
        i = i + 1;
        assert(out@ =~= value@.take(i as int).map_values(|c: char| sanitize_char(c)));
    }
    assert(value@.take(value.len() as int) =~= value@);
    out
}

/// Makes a message id safe to use inside a file name.
pub fn sanitize_component(value: &str) -> (r: String)
    ensures
        r@ == sanitize_component_spec(value@),
{
    let v = chars_of(value);
    let s = sanitize_chars(v.as_slice());
    let t = trim_char(s.as_slice(), '-');
    if t.len() == 0 {
        "message".to_string()
    } else {
        string_of(t.as_slice())
    }
}

/// `value` without a leading `@assistant` or `/assistant`.
pub open spec fn strip_bot_address_spec(value: Seq<char>) -> Seq<char> {
    match strip_prefix_seq(value, "@assistant"@) {
        Some(rest) => rest,
        None => match strip_prefix_seq(value, "/assistant"@) {
            Some(rest) => rest,
            None => value,
        },
    }
}

/// Removes a leading `@assistant` or `/assistant` from a caption.
pub fn strip_bot_address(value: &str) -> (r: String)
    ensures
        r@ == strip_bot_address_spec(value@),
{
    let v = chars_of(value);
    let at = chars_of("@assistant");
    let slash = chars_of("/assistant");
    match strip_prefix(v.as_slice(), at.as_slice()) {
        Some(rest) => string_of(rest.as_slice()),
        None => match strip_prefix(v.as_slice(), slash.as_slice()) {
            Some(rest) => string_of(rest.as_slice()),
            None => string_of(v.as_slice()),
        },
    }
}

/// The Markdown image-alt escape of one character.
pub open spec fn markdown_alt_char(c: char) -> Seq<char> {
    if c == '[' {
        seq!['\\', '[']
    } else if c == ']' {
        seq!['\\', ']']
    } else {
        seq![c]
    }
}

/// `s` with square brackets escaped for Markdown image alt text.
pub open spec fn escape_markdown_alt_spec(s: Seq<char>) -> Seq<char> {
    flat_map_chars(s, |c: char| markdown_alt_char(c))
}

/// Escapes square brackets for Markdown image alt text.
pub fn escape_markdown_alt(value: &str) -> (r: String)
    ensures
        r@ == escape_markdown_alt_spec(value@),
{
    let v = chars_of(value);
    let mut out: Vec<char> = Vec::new();
    let mut i: usize = 0;
    while i < v.len()
        invariant
            i <= v.len(),
            out@ == escape_markdown_alt_spec(v@.take(i as int)),
        decreases v.len() - i,
    {
        let c = v[i];
        let ghost before = out@;
        if c == '[' {
            out.push('\\');
            out.push('[');
        } else if c == ']' {
            out.push('\\');
            out.push(']');
        } else {
            out.push(c);
        }
        assert(out@ =~= before + markdown_alt_char(c));
        assert(v@.take(i + 1).drop_last() =~= v@.take(i as int));
        i = i + 1;
    }
    assert(v@.take(v.len() as int) =~= v@);
    string_of(out.as_slice())
}


/// The view of an optional string.
pub open spec fn opt_string_view(o: Option<String>) -> Option<Seq<char>> {
    match o {
        Some(s) => Some(s@),
        None => None,
    }
}

/// The MIME type an image is recorded with: the downloaded one, else the one the message
/// declared, else `application/octet-stream`.
pub open spec fn attachment_mime_spec(media_mime: Option<Seq<char>>, declared: Option<Seq<char>>) -> Seq<
    char,
> {
    match media_mime {
        Some(m) => m,
        None => match declared {
            Some(d) => d,
            None => "application/octet-stream"@,
        },
    }
}

/// The file name of the `index`-th (from zero) image of a message.
pub open spec fn image_file_name_spec(
    provider: Provider,
    message_id: Seq<char>,
    index: nat,
    extension: Seq<char>,
) -> Seq<char> {
    provider_name(provider) + "-"@ + sanitize_component_spec(message_id) + "-"@ + decimal(index + 1)
        + "."@ + extension
}

/// The alt text of a saved image: its caption without a bot address, trimmed, or
/// `Book image` when that leaves nothing.
pub open spec fn alt_text_spec(caption: Option<Seq<char>>) -> Seq<char> {
    match caption {
        Some(c) => {
            let t = trim_seq(strip_bot_address_spec(c));
            if t.len() > 0 {
                t
            } else {
                "Book image"@
            }
        },
        None => "Book image"@,
    }
}

/// Copies an optional string.
pub fn copy_opt_string(o: &Option<String>) -> (r: Option<String>)
    ensures
        opt_string_view(r) == opt_string_view(*o),
{
    match o {
        Some(s) => Some(s.clone()),
        None => None,
    }
}

/// Decides where and how an attachment's image is saved into a workspace: refuses images
/// over the size limit and unsupported image types, and otherwise names the file
/// `assets/images/<provider>-<message>-<n>.<ext>` with a Markdown reference to it. The
/// caller writes the bytes to that path.
pub fn prepare_image_attachment(
    provider: &Provider,
    message_id: &str,
    index: usize,
    attachment: &MessageAttachment,
    media: &DownloadedMedia,
) -> (r: Result<SavedImageAttachment, AttachmentError>)
    requires
        index < usize::MAX,
    ensures
        media.bytes.len() > IMAGE_ATTACHMENT_BYTES_LIMIT ==> r == Err::<
            SavedImageAttachment,
            AttachmentError,
        >(AttachmentError::TooLarge),
        media.bytes.len() <= IMAGE_ATTACHMENT_BYTES_LIMIT ==> (r matches Err(
            AttachmentError::UnsupportedMime,
        ) <==> !supported_image_mime(
            ascii_lower_seq(
                attachment_mime_spec(
                    opt_string_view(media.mime_type),
                    opt_string_view(attachment.mime_type),
                ),
            ),
        )),
        media.bytes.len() <= IMAGE_ATTACHMENT_BYTES_LIMIT ==> {
            let mime = attachment_mime_spec(
                opt_string_view(media.mime_type),
                opt_string_view(attachment.mime_type),
            );
            match image_extension_spec(
                Some(mime),
                opt_string_view(media.provider_file_path),
                opt_string_view(attachment.original_filename),
            ) {
                Err(e) => r == Err::<SavedImageAttachment, AttachmentError>(e),
                Ok(ext) => {
                    let rel = "assets/images/"@ + image_file_name_spec(
                        *provider,
                        message_id@,
                        index as nat,
                        ext,
                    );
                    match asset_path_check(rel) {
                        Err(e) => r == Err::<SavedImageAttachment, AttachmentError>(
                            AttachmentError::PathRefused(e),
                        ),
                        Ok(_) => r matches Ok(saved) && saved.workspace_relative_path@ == rel
                            && saved.markdown@ == "!["@ + escape_markdown_alt_spec(
                            alt_text_spec(opt_string_view(attachment.caption)),
                        ) + "]("@ + rel + ")"@ && saved.mime_type@ == mime && opt_string_view(
                            saved.original_filename,
                        ) == opt_string_view(attachment.original_filename) && saved.width
                            == attachment.width && saved.height == attachment.height
                            && saved.file_size == media.bytes.len() && opt_string_view(
                            saved.caption,
                        ) == opt_string_view(attachment.caption),
                    }
                },
            }
        },
{
    if media.bytes.len() > IMAGE_ATTACHMENT_BYTES_LIMIT {
        return Err(AttachmentError::TooLarge);
    }
    let mime: String = match &media.mime_type {
        Some(m) => m.clone(),
        None => match &attachment.mime_type {
            Some(d) => d.clone(),
            None => "application/octet-stream".to_string(),
        },
    };
    let pfp: Option<&str> = match &media.provider_file_path {
        Some(p) => Some(p.as_str()),
        None => None,
    };
    let orig: Option<&str> = match &attachment.original_filename {
        Some(o) => Some(o.as_str()),
        None => None,
    };
    let ext = match image_extension(Some(mime.as_str()), pfp, orig) {
        Ok(e) => e,
        Err(e) => {
            return Err(e);
        },
    };
    let safe = sanitize_component(message_id);
    let mut rel: Vec<char> = Vec::new();
    push_str(&mut rel, "assets/images/");
    push_str(&mut rel, provider.as_str());
    push_str(&mut rel, "-");
    push_str(&mut rel, safe.as_str());
    push_str(&mut rel, "-");
    let n = decimal_u64((index + 1) as u64);
    push_all(&mut rel, n.as_slice());
    push_str(&mut rel, ".");
    push_str(&mut rel, ext);
    assert(rel@ =~= "assets/images/"@ + image_file_name_spec(*provider, message_id@, index as nat, ext@));
    let rel_string = string_of(rel.as_slice());
    match ensure_workspace_asset_path(rel_string.as_str()) {
        Ok(()) => {},
        Err(e) => {
            return Err(AttachmentError::PathRefused(e));
        },
    }
    let alt: Vec<char> = match &attachment.caption {
        Some(c) => {
            let stripped = strip_bot_address(c.as_str());
            let sv = chars_of(stripped.as_str());
            let t = trim(sv.as_slice());
            if t.len() > 0 {
                t
            } else {
                chars_of("Book image")
            }
        },
        None => chars_of("Book image"),
    };
    let alt_string = string_of(alt.as_slice());
    let escaped = escape_markdown_alt(alt_string.as_str());
    let mut md: Vec<char> = Vec::new();
    push_str(&mut md, "![");
    push_str(&mut md, escaped.as_str());
    push_str(&mut md, "](");
    push_all(&mut md, rel.as_slice());
    push_str(&mut md, ")");
    Ok(
        SavedImageAttachment {
            workspace_relative_path: rel_string,
            markdown: string_of(md.as_slice()),
            mime_type: mime,
            original_filename: copy_opt_string(&attachment.original_filename),
            width: attachment.width,
            height: attachment.height,
            file_size: media.bytes.len(),
            caption: copy_opt_string(&attachment.caption),
        },
    )
}

} // verus!
