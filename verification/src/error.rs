//! The errors of the library: one closed set, each with the message shown to
//! the user and the kind it falls under.

use crate::adapters::{status_line, status_text};
use crate::text::{chars_of, string_of};
use vstd::prelude::*;

verus! {

/// What went wrong.
#[derive(Debug, PartialEq, Eq)]
pub enum Error {
    /// No directory holds a configuration with the id asked for.
    AppNotFound,
    /// The platform names no data directory.
    NoDataDir,
    /// No Chromium-based browser is installed.
    NoBrowser,
    /// A file could not be read, written, renamed or removed; the system's message.
    Io(String),
    /// A configuration file is not the JSON expected; the parser's message.
    Json(String),
    /// A request did not complete; the transport's message.
    Transport(String),
    /// The server answered with a status outside 200..=299.
    HttpStatus(u16),
    /// The well-known icon path answered with an HTML page.
    NotBitmap,
    /// The well-known icon is no image in a known format.
    DecodeFailed,
    /// The site's page was not served as HTML.
    NotHtml,
    /// The site's page is not valid UTF-8.
    InvalidHtmlEncoding,
    /// The site's address does not parse as a URL.
    InvalidBaseUrl,
    /// The page names no icon that can be fetched.
    NoIconLinks,
    /// The icon the page names is no image in a known format.
    UndecodableIcon,
    /// The bytes handed in are no image in a known format.
    InvalidImage,
    /// A decoded image could not be written as PNG; the encoder's message.
    Encode(String),
    /// A vector icon could not be rasterised; the renderer's message.
    Render(String),
}

/// An `Error` as plain values.
pub enum ErrorView {
    AppNotFound,
    NoDataDir,
    NoBrowser,
    Io(Seq<char>),
    Json(Seq<char>),
    Transport(Seq<char>),
    HttpStatus(u16),
    NotBitmap,
    DecodeFailed,
    NotHtml,
    InvalidHtmlEncoding,
    InvalidBaseUrl,
    NoIconLinks,
    UndecodableIcon,
    InvalidImage,
    Encode(Seq<char>),
    Render(Seq<char>),
}

impl View for Error {
    type V = ErrorView;

    open spec fn view(&self) -> ErrorView {
        match self {
            Error::AppNotFound => ErrorView::AppNotFound,
            Error::NoDataDir => ErrorView::NoDataDir,
            Error::NoBrowser => ErrorView::NoBrowser,
            Error::Io(m) => ErrorView::Io(m@),
            Error::Json(m) => ErrorView::Json(m@),
            Error::Transport(m) => ErrorView::Transport(m@),
            Error::HttpStatus(c) => ErrorView::HttpStatus(*c),
            Error::NotBitmap => ErrorView::NotBitmap,
            Error::DecodeFailed => ErrorView::DecodeFailed,
            Error::NotHtml => ErrorView::NotHtml,
            Error::InvalidHtmlEncoding => ErrorView::InvalidHtmlEncoding,
            Error::InvalidBaseUrl => ErrorView::InvalidBaseUrl,
            Error::NoIconLinks => ErrorView::NoIconLinks,
            Error::UndecodableIcon => ErrorView::UndecodableIcon,
            Error::InvalidImage => ErrorView::InvalidImage,
            Error::Encode(m) => ErrorView::Encode(m@),
            Error::Render(m) => ErrorView::Render(m@),
        }
    }
}

impl Clone for Error {
    fn clone(&self) -> (r: Self)
        ensures
            r@ == self@,
    {
        match self {
            Error::AppNotFound => Error::AppNotFound,
            Error::NoDataDir => Error::NoDataDir,
            Error::NoBrowser => Error::NoBrowser,
            Error::Io(m) => Error::Io(m.clone()),
            Error::Json(m) => Error::Json(m.clone()),
            Error::Transport(m) => Error::Transport(m.clone()),
            Error::HttpStatus(c) => Error::HttpStatus(*c),
            Error::NotBitmap => Error::NotBitmap,
            Error::DecodeFailed => Error::DecodeFailed,
            Error::NotHtml => Error::NotHtml,
            Error::InvalidHtmlEncoding => Error::InvalidHtmlEncoding,
            Error::InvalidBaseUrl => Error::InvalidBaseUrl,
            Error::NoIconLinks => Error::NoIconLinks,
            Error::UndecodableIcon => Error::UndecodableIcon,
            Error::InvalidImage => Error::InvalidImage,
            Error::Encode(m) => Error::Encode(m.clone()),
            Error::Render(m) => Error::Render(m.clone()),
        }
    }
}

/// The families that errors fall into.
#[derive(Clone, Copy, Debug, PartialEq, Eq, Structural)]
pub enum ErrorKind {
    /// An app, an id or an icon is absent.
    NotFound,
    /// A URL, an image or a vector drawing is malformed.
    InvalidInput,
    /// The file system refused.
    IoFailure,
    /// The transport failed, the status was no success, or the content type
    /// was not the one the strategy expects.
    NetworkFailure,
    /// JSON or HTML is malformed.
    ParseFailure,
}

/// The family of an error.
pub open spec fn kind_of(e: ErrorView) -> ErrorKind {
    match e {
        ErrorView::AppNotFound => ErrorKind::NotFound,
        ErrorView::NoBrowser => ErrorKind::NotFound,
        ErrorView::NoIconLinks => ErrorKind::NotFound,
        ErrorView::NoDataDir => ErrorKind::IoFailure,
        ErrorView::Io(_) => ErrorKind::IoFailure,
        ErrorView::Json(_) => ErrorKind::ParseFailure,
        ErrorView::InvalidHtmlEncoding => ErrorKind::ParseFailure,
        ErrorView::Transport(_) => ErrorKind::NetworkFailure,
        ErrorView::HttpStatus(_) => ErrorKind::NetworkFailure,
        ErrorView::NotBitmap => ErrorKind::NetworkFailure,
        ErrorView::NotHtml => ErrorKind::NetworkFailure,
        ErrorView::InvalidBaseUrl => ErrorKind::InvalidInput,
        ErrorView::DecodeFailed => ErrorKind::InvalidInput,
        ErrorView::UndecodableIcon => ErrorKind::InvalidInput,
        ErrorView::InvalidImage => ErrorKind::InvalidInput,
        ErrorView::Encode(_) => ErrorKind::InvalidInput,
        ErrorView::Render(_) => ErrorKind::InvalidInput,
    }
}

/// The decimal digits of `n`, without leading zeros.
pub open spec fn decimal(n: nat) -> Seq<char>
    decreases n,
{
    if n < 10 {
        seq![(n + '0' as nat) as char]
    } else {
        decimal(n / 10).push((n % 10 + '0' as nat) as char)
    }
}

/// What is shown for a status: `HTTP` and the text the HTTP library has for
/// it, or the bare number where it has none.
pub open spec fn status_message(code: u16, line: Option<Seq<char>>) -> Seq<char> {
    "HTTP "@ + match line {
        Some(t) => t,
        None => decimal(code as nat),
    }
}

/// The message of an error.
pub open spec fn message_of(e: ErrorView) -> Seq<char> {
    match e {
        ErrorView::AppNotFound => "App not found"@,
        ErrorView::NoDataDir => "No data dir"@,
        ErrorView::NoBrowser => "No supported Chromium-based browser found"@,
        ErrorView::Io(m) => m,
        ErrorView::Json(m) => m,
        ErrorView::Transport(m) => m,
        ErrorView::HttpStatus(code) => status_message(code, status_line(code)),
        ErrorView::NotBitmap => "Not bitmap"@,
        ErrorView::DecodeFailed => "Decode failed"@,
        ErrorView::NotHtml => "Not HTML"@,
        ErrorView::InvalidHtmlEncoding => "Invalid HTML encoding"@,
        ErrorView::InvalidBaseUrl => "Invalid base URL"@,
        ErrorView::NoIconLinks => "No icon links found"@,
        ErrorView::UndecodableIcon => "Failed to decode icon"@,
        ErrorView::InvalidImage => "Invalid image"@,
        ErrorView::Encode(m) => m,
        ErrorView::Render(m) => m,
    }
}

/// The decimal digits of `n`.
pub fn decimal_digits(n: u16) -> (r: Vec<char>)
    ensures
        r@ == decimal(n as nat),
    decreases n,
{
    let last: char = ((n % 10) as u8 + 48u8) as char;
    if n < 10 {
        let mut v: Vec<char> = Vec::new();
        v.push(last);
        assert(v@ =~= decimal(n as nat));
        v
    } else {
        let mut v = decimal_digits(n / 10);
        v.push(last);
        v
    }
}

/// The message for a status, given the text the HTTP library has for it.
pub fn status_message_from(code: u16, line: Option<String>) -> (r: String)
    ensures
        r@ == status_message(
            code,
            match line {
                Some(t) => Some(t@),
                None => None,
            },
        ),
{
    let mut out = chars_of("HTTP ");
    match line {
        Some(t) => {
            let mut rest = chars_of(t.as_str());
            out.append(&mut rest);
        },
        None => {
            let mut rest = decimal_digits(code);
            out.append(&mut rest);
        },
    }
    string_of(&out)
}

impl Error {
    /// The family the error falls into.
    pub fn kind(&self) -> (r: ErrorKind)
        ensures
            r == kind_of(self@),
    {
        match self {
            Error::AppNotFound | Error::NoBrowser | Error::NoIconLinks => ErrorKind::NotFound,
            Error::NoDataDir | Error::Io(_) => ErrorKind::IoFailure,
            Error::Json(_) | Error::InvalidHtmlEncoding => ErrorKind::ParseFailure,
            Error::Transport(_) | Error::HttpStatus(_) | Error::NotBitmap | Error::NotHtml =>
                ErrorKind::NetworkFailure,
            Error::InvalidBaseUrl
            | Error::DecodeFailed
            | Error::UndecodableIcon
            | Error::InvalidImage
            | Error::Encode(_)
            | Error::Render(_) => ErrorKind::InvalidInput,
        }
    }

    /// What the error says to the user.
    pub fn message(&self) -> (r: String)
        ensures
            r@ == message_of(self@),
    {
        match self {
            Error::AppNotFound => "App not found".to_owned(),
            Error::NoDataDir => "No data dir".to_owned(),
            Error::NoBrowser => "No supported Chromium-based browser found".to_owned(),
            Error::Io(m) => m.clone(),
            Error::Json(m) => m.clone(),
            Error::Transport(m) => m.clone(),
            Error::HttpStatus(code) => status_message_from(*code, status_text(*code)),
            Error::NotBitmap => "Not bitmap".to_owned(),
            Error::DecodeFailed => "Decode failed".to_owned(),
            Error::NotHtml => "Not HTML".to_owned(),
            Error::InvalidHtmlEncoding => "Invalid HTML encoding".to_owned(),
            Error::InvalidBaseUrl => "Invalid base URL".to_owned(),
            Error::NoIconLinks => "No icon links found".to_owned(),
            Error::UndecodableIcon => "Failed to decode icon".to_owned(),
            Error::InvalidImage => "Invalid image".to_owned(),
            Error::Encode(m) => m.clone(),
            Error::Render(m) => m.clone(),
        }
    }
}

} // verus!
