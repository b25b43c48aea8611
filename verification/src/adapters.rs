//! The calls this library makes into other crates, and into the parts of std
//! that come without a specification. What stands here is believed, not
//! proved: each contract says what the called code is taken to do.

use vstd::prelude::*;
use vstd::utf8::{decode_utf8, valid_utf8};

verus! {

/// The attributes of one `<link>` element that matter for icon discovery,
/// each absent where the element does not carry it.
#[derive(Debug, PartialEq, Eq)]
pub struct LinkTag {
    pub rel: Option<String>,
    pub href: Option<String>,
    pub sizes: Option<String>,
}

/// A `LinkTag` as plain text.
pub struct LinkTagView {
    pub rel: Option<Seq<char>>,
    pub href: Option<Seq<char>>,
    pub sizes: Option<Seq<char>>,
}

/// The text of an optional string.
pub open spec fn text_of(s: Option<String>) -> Option<Seq<char>> {
    match s {
        Some(t) => Some(t@),
        None => None,
    }
}

impl View for LinkTag {
    type V = LinkTagView;

    open spec fn view(&self) -> LinkTagView {
        LinkTagView { rel: text_of(self.rel), href: text_of(self.href), sizes: text_of(self.sizes) }
    }
}

/// The views of a list of tags, in order.
pub open spec fn tags_view(tags: Seq<LinkTag>) -> Seq<LinkTagView> {
    tags.map_values(|t: LinkTag| t@)
}

/// What came of turning image bytes into a PNG.
#[derive(Debug, PartialEq, Eq)]
pub enum Transcoded {
    /// The PNG encoding of the decoded image.
    Png(Vec<u8>),
    /// The bytes are no image in a known format.
    Undecodable,
    /// The image was decoded but could not be written as PNG; the encoder's message.
    Unencodable(String),
}

/// A `Transcoded` as plain values.
pub enum TranscodedView {
    Png(Seq<u8>),
    Undecodable,
    Unencodable(Seq<char>),
}

impl View for Transcoded {
    type V = TranscodedView;

    open spec fn view(&self) -> TranscodedView {
        match self {
            Transcoded::Png(b) => TranscodedView::Png(b@),
            Transcoded::Undecodable => TranscodedView::Undecodable,
            Transcoded::Unencodable(m) => TranscodedView::Unencodable(m@),
        }
    }
}

/// `String::push` of std: appends one character at the end.
pub assume_specification[ String::push ](s: &mut String, ch: char)
    ensures
        final(s)@ == old(s)@.push(ch),
;

/// What scraper reads from the document `html`: for each element that matches
/// the CSS selector `selector`, in the order in which `Html::select` yields
/// them, the values of the attributes named `rel`, `href` and `sizes`. `None`
/// where `selector` is no valid selector.
pub uninterp spec fn html_select_attrs(
    html: Seq<char>,
    selector: Seq<char>,
    rel: Seq<char>,
    href: Seq<char>,
    sizes: Seq<char>,
) -> Option<Seq<LinkTagView>>;

/// The serialisation of the URL that `url::Url::parse` reads from `input`,
/// `None` where it reads none.
pub uninterp spec fn url_parse(input: Seq<char>) -> Option<Seq<char>>;

/// The serialisation of the URL that `url::Url::join` gives for the reference
/// `href` against the URL parsed from `base`; `None` where `base` does not
/// parse or the reference cannot be resolved.
pub uninterp spec fn url_join(base: Seq<char>, href: Seq<char>) -> Option<Seq<char>>;

/// `s` in lower case, as `str::to_lowercase` gives it.
pub uninterp spec fn lowercase(s: Seq<char>) -> Seq<char>;

/// The text that `reqwest::StatusCode` displays for the status `code`: the
/// number and its canonical reason phrase. `None` where `code` is no status
/// code.
pub uninterp spec fn status_line(code: u16) -> Option<Seq<char>>;

/// Parses `html` with `scraper::Html::parse_document` and `selector` with
/// `scraper::Selector::parse`, walks `Html::select` and reads three attributes
/// of each element with `Element::attr`. The result depends on the five texts
/// alone; `html_select_attrs` names it.
#[verifier::external_body]
pub(crate) fn select_attrs(html: &str, selector: &str, rel: &str, href: &str, sizes: &str) -> (r:
    Option<Vec<LinkTag>>)
    ensures
        match r {
            Some(tags) => html_select_attrs(html@, selector@, rel@, href@, sizes@) == Some(
                tags_view(tags@),
            ),
            None => html_select_attrs(html@, selector@, rel@, href@, sizes@) is None,
        },
{
    let selector = scraper::Selector::parse(selector).ok()?;
    let document = scraper::Html::parse_document(html);
    Some(
        document.select(&selector).map(
            |el| LinkTag {
                rel: el.value().attr(rel).map(String::from),
                href: el.value().attr(href).map(String::from),
                sizes: el.value().attr(sizes).map(String::from),
            },
        ).collect(),
    )
}

/// `url::Url::parse` on `input`, the URL handed back as its serialisation.
#[verifier::external_body]
pub(crate) fn parse_url(input: &str) -> (r: Option<String>)
    ensures
        text_of(r) == url_parse(input@),
{
    url::Url::parse(input).ok().map(String::from)
}

/// `url::Url::join`: `base` is parsed with `Url::parse`, `href` resolved
/// against it, and the URL handed back as its serialisation.
#[verifier::external_body]
pub(crate) fn join_url(base: &str, href: &str) -> (r: Option<String>)
    ensures
        text_of(r) == url_join(base@, href@),
{
    match url::Url::parse(base) {
        Ok(b) => b.join(href).ok().map(String::from),
        Err(_) => None,
    }
}

/// The eight bytes that every PNG file begins with.
pub open spec fn png_signature() -> Seq<u8> {
    seq![137u8, 80u8, 78u8, 71u8, 13u8, 10u8, 26u8, 10u8]
}

/// `b` begins with the PNG signature.
pub open spec fn has_png_signature(b: Seq<u8>) -> bool {
    b.len() >= 8 && b.take(8) == png_signature()
}

/// `image::load_from_memory` on `bytes`, then `DynamicImage::write_to` with
/// the PNG format into a fresh buffer. The image crate lets any code in the
/// process register further decoders and format detection, which
/// `load_from_memory` consults, so which outcome comes is not a matter of
/// the bytes alone and is not claimed. What is claimed holds of each: where
/// the writing succeeded, the buffer begins with the PNG signature, which
/// the PNG encoder writes before anything else.
#[verifier::external_body]
pub(crate) fn transcode_png(bytes: &Vec<u8>) -> (r: Transcoded)
    ensures
        r matches Transcoded::Png(b) ==> has_png_signature(b@),
{
    match image::load_from_memory(bytes) {
        Err(_) => Transcoded::Undecodable,
        Ok(img) => {
            let mut out = Vec::new();
            match img.write_to(&mut std::io::Cursor::new(&mut out), image::ImageFormat::Png) {
                Ok(()) => Transcoded::Png(out),
                Err(e) => Transcoded::Unencodable(e.to_string()),
            }
        },
    }
}

/// `str::to_lowercase` of std, whose result `lowercase` names.
pub assume_specification[ str::to_lowercase ](s: &str) -> (r: String)
    ensures
        r@ == lowercase(s@),
;

/// The error of `String::from_utf8`.
#[verifier::external_type_specification]
#[verifier::external_body]
pub struct ExFromUtf8Error(std::string::FromUtf8Error);

/// `String::from_utf8` of std: succeeds exactly on valid UTF-8 and then holds
/// the characters that the bytes encode.
pub assume_specification[ String::from_utf8 ](vec: Vec<u8>) -> (r: Result<
    String,
    std::string::FromUtf8Error,
>)
    ensures
        r is Ok <==> valid_utf8(vec@),
        r matches Ok(s) ==> s@ == decode_utf8(vec@),
;

/// `reqwest::StatusCode::from_u16` and the `Display` of the status it gives.
#[verifier::external_body]
pub(crate) fn status_text(code: u16) -> (r: Option<String>)
    ensures
        text_of(r) == status_line(code),
{
    reqwest::StatusCode::from_u16(code).ok().map(|s| s.to_string())
}

/// `dirs::data_dir`: the user's data directory, where the platform names one
/// and its path is valid Unicode. It depends on the environment, so nothing
/// is claimed of it.
#[verifier::external_body]
pub(crate) fn data_dir() -> Option<String> {
    dirs::data_dir().and_then(|p| p.into_os_string().into_string().ok())
}

/// `dirs::config_dir`: the user's configuration directory, where the platform
/// names one and its path is valid Unicode. It depends on the environment, so
/// nothing is claimed of it.
#[verifier::external_body]
pub(crate) fn config_dir() -> Option<String> {
    dirs::config_dir().and_then(|p| p.into_os_string().into_string().ok())
}

} // verus!
