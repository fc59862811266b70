//! Fetching the images attached to messenger messages: the Telegram file API addresses,
//! the media type a download reports, and a downloader that serves fixed media.
use vstd::prelude::*;

use crate::media_assets::DownloadedMedia;
use crate::models::{MessageAttachment, Provider, opt_text};
use crate::paths::split_on;
use crate::text::{chars_of, push_all, push_str, string_of, trim, trim_seq};

verus! {

broadcast use vstd::string::group_string_axioms;

/// The Telegram Bot API address that resolves a file id for bot `token`.
pub fn telegram_get_file_url(token: &str) -> (r: String)
    ensures
        r@ == "https://api.telegram.org/bot"@ + token@ + "/getFile"@,
{
    let mut v = chars_of("https://api.telegram.org/bot");
    push_all(&mut v, chars_of(token).as_slice());
    push_str(&mut v, "/getFile");
    string_of(v.as_slice())
}

/// The Telegram Bot API address of file `file_path` for bot `token`.
pub fn telegram_file_url(token: &str, file_path: &str) -> (r: String)
    ensures
        r@ == "https://api.telegram.org/file/bot"@ + token@ + "/"@ + file_path@,
{
    let mut v = chars_of("https://api.telegram.org/file/bot");
    push_all(&mut v, chars_of(token).as_slice());
    push_str(&mut v, "/");
    push_all(&mut v, chars_of(file_path).as_slice());
    string_of(v.as_slice())
}

/// The media type a `Content-Type` header names: the part before any `;`, trimmed; `None`
/// when that is blank.
pub open spec fn content_type_essence_spec(header: Seq<char>) -> Option<Seq<char>> {
    let t = trim_seq(split_on(header, ';')[0]);
    if t.len() > 0 {
        Some(t)
    } else {
        None
    }
}

/// The media type a `Content-Type` header names.
pub fn content_type_essence(header: &str) -> (r: Option<String>)
    ensures
        match content_type_essence_spec(header@) {
            Some(t) => r matches Some(s) && s@ == t,
            None => r is None,
        },
{
    let pieces = crate::paths::split_char(chars_of(header).as_slice(), ';');
    assert(crate::paths::piece_views(pieces@)[0] == pieces@[0]@);
    let t = trim(pieces[0].as_slice());
    if t.len() > 0 {
        Some(string_of(t.as_slice()))
    } else {
        None
    }
}

/// The media type of a downloaded MAX image: the one the message declared, else the one
/// the download reported.
pub fn max_download_mime(declared: &Option<String>, reported: Option<String>) -> (r: Option<String>)
    ensures
        opt_text(r) == match opt_text(*declared) {
            Some(d) => Some(d),
            None => opt_text(reported),
        },
{
    match declared {
        Some(d) => Some(d.clone()),
        None => reported,
    }
}

/// Whether a download address uses a scheme images may be fetched over.
pub fn is_web_scheme(scheme: &str) -> (r: bool)
    ensures
        r == (scheme@ == "http"@ || scheme@ == "https"@),
{
    let s = chars_of(scheme);
    crate::text::chars_eq(s.as_slice(), chars_of("http").as_slice()) || crate::text::chars_eq(
        s.as_slice(),
        chars_of("https").as_slice(),
    )
}

fn copy_bytes(v: &Vec<u8>) -> (r: Vec<u8>)
    ensures
        r@ == v@,
{
    let mut out: Vec<u8> = Vec::new();
    let mut i: usize = 0;
    while i < v.len()
        invariant
            i <= v@.len(),
            out@ == v@.take(i as int),
        decreases v.len() - i,
    {
        out.push(v[i]);
        assert(out@ =~= v@.take(i + 1));
        i = i + 1;
    }
    assert(v@.take(v@.len() as int) =~= v@);
    out
}

/// A downloader that hands out the same media for every attachment.
pub struct FakeMediaDownloader {
    media: DownloadedMedia,
}

impl FakeMediaDownloader {
    /// A downloader that always hands out `media`.
    pub fn new(media: DownloadedMedia) -> (r: FakeMediaDownloader)
        ensures
            r.media() == media,
    {
        FakeMediaDownloader { media }
    }

    /// The media this downloader hands out.
    pub closed spec fn media(&self) -> DownloadedMedia {
        self.media
    }

    /// The media for an attachment: always the fixed media.
    pub fn download(&self, provider: &Provider, attachment: &MessageAttachment) -> (r: DownloadedMedia)
        ensures
            r.bytes@ == self.media().bytes@,
            opt_text(r.mime_type) == opt_text(self.media().mime_type),
            opt_text(r.provider_file_path) == opt_text(self.media().provider_file_path),
    {
        DownloadedMedia {
            bytes: copy_bytes(&self.media.bytes),
            mime_type: crate::models::copy_text(&self.media.mime_type),
            provider_file_path: crate::models::copy_text(&self.media.provider_file_path),
        }
    }
}

} // verus!
