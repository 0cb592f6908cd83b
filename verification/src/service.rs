//! Messages for the errors of the news service, and the size limit of downloaded images.

use vstd::prelude::*;

use crate::article_cells::{decimal, push_decimal};
use crate::image_url::{ImageUrlError, ParsedUrl};
use crate::unicode::push_str;

verus! {

/// An error of the news service, with the text of its cause where it has one.
#[derive(Debug)]
pub enum ServiceError {
    Database(String),
    Api(String),
    Io(String),
    LoadBackend,
    Icon(String),
    Url(String),
    NotLoggedIn,
    Thumbnail,
    Opml(String),
    ImageDownload(String),
    GrabContent,
    Semaphore(String),
    Syncing,
    Offline,
    Unknown,
}

/// The message shown for a service error.
pub open spec fn spec_error_message(e: ServiceError) -> Seq<char> {
    match e {
        ServiceError::Database(c) => "Database error ("@ + c@ + ")."@,
        ServiceError::Api(c) => "API error ("@ + c@ + ")"@,
        ServiceError::Io(c) => "IO error ("@ + c@ + ")"@,
        ServiceError::LoadBackend => "Failed to load NewsFlash backend."@,
        ServiceError::Icon(c) => "Favicon error: "@ + c@ + "."@,
        ServiceError::Url(c) => "Invalid URL format: "@ + c@,
        ServiceError::NotLoggedIn => "You need be logged in to perform this action. Please log in first."@,
        ServiceError::Thumbnail => "Failed to load or generate thumbnail image for the article."@,
        ServiceError::Opml(c) => "OPML file processing failed: "@ + c@ + ". The file may be corrupted or invalid."@,
        ServiceError::ImageDownload(c) => "Failed to download images for article: "@ + c@,
        ServiceError::GrabContent => "Failed to download full article content."@,
        ServiceError::Semaphore(c) => "Unable to start concurrent operation: "@ + c@,
        ServiceError::Syncing => "Cannot perform this operation while syncing feeds. Please wait for sync to complete."@,
        ServiceError::Offline => "Cannot perform this operation while offline."@,
        ServiceError::Unknown => "An unknown error occurred."@,
    }
}

/// `before`, `cause` and `after`, one after the other.
fn framed(before: &str, cause: &str, after: &str) -> (s: String)
    ensures
        s@ == before@ + cause@ + after@,
{
    let mut s = String::new();
    push_str(&mut s, before);
    push_str(&mut s, cause);
    push_str(&mut s, after);
    s
}

/// The message shown for a service error.
pub fn error_message(e: &ServiceError) -> (m: String)
    ensures
        m@ == spec_error_message(*e),
{
    proof {
        reveal_strlit("");
        reveal_strlit("Database error (");
        reveal_strlit(").");
        reveal_strlit("API error (");
        reveal_strlit(")");
        reveal_strlit("IO error (");
        reveal_strlit("Favicon error: ");
        reveal_strlit(".");
        reveal_strlit("Invalid URL format: ");
        reveal_strlit("OPML file processing failed: ");
        reveal_strlit(". The file may be corrupted or invalid.");
        reveal_strlit("Failed to download images for article: ");
        reveal_strlit("Unable to start concurrent operation: ");
    }
    match e {
        ServiceError::Database(c) => framed("Database error (", c.as_str(), ")."),
        ServiceError::Api(c) => framed("API error (", c.as_str(), ")"),
        ServiceError::Io(c) => framed("IO error (", c.as_str(), ")"),
        ServiceError::LoadBackend => "Failed to load NewsFlash backend.".to_owned(),
        ServiceError::Icon(c) => framed("Favicon error: ", c.as_str(), "."),
        ServiceError::Url(c) => {
            let s = framed("Invalid URL format: ", c.as_str(), "");
            assert(s@ =~= "Invalid URL format: "@ + c@);
            s
        },
        ServiceError::NotLoggedIn => "You need be logged in to perform this action. Please log in first.".to_owned(),
        ServiceError::Thumbnail => "Failed to load or generate thumbnail image for the article.".to_owned(),
        ServiceError::Opml(c) => framed("OPML file processing failed: ", c.as_str(), ". The file may be corrupted or invalid."),
        ServiceError::ImageDownload(c) => {
            let s = framed("Failed to download images for article: ", c.as_str(), "");
            assert(s@ =~= "Failed to download images for article: "@ + c@);
            s
        },
        ServiceError::GrabContent => "Failed to download full article content.".to_owned(),
        ServiceError::Semaphore(c) => {
            let s = framed("Unable to start concurrent operation: ", c.as_str(), "");
            assert(s@ =~= "Unable to start concurrent operation: "@ + c@);
            s
        },
        ServiceError::Syncing => "Cannot perform this operation while syncing feeds. Please wait for sync to complete.".to_owned(),
        ServiceError::Offline => "Cannot perform this operation while offline.".to_owned(),
        ServiceError::Unknown => "An unknown error occurred.".to_owned(),
    }
}

/// The largest content image that is downloaded, in bytes.
pub const CONTENT_IMAGE_MAX_BYTES: u64 = 8388608;

/// The message when the image at `url` has `length` bytes, over the limit.
pub open spec fn oversized_message(url: Seq<char>, length: nat) -> Seq<char> {
    url + " is "@ + decimal(length) + " bytes, over the limit of "@ + decimal(CONTENT_IMAGE_MAX_BYTES as nat)
}

/// Checks the size of the image at `url`, `length` bytes, against the download limit.
pub fn check_image_size(url: &str, length: u64) -> (r: Result<(), String>)
    ensures
        r is Err <==> length > CONTENT_IMAGE_MAX_BYTES,
        r matches Err(m) ==> m@ == oversized_message(url@, length as nat),
{
    if length <= CONTENT_IMAGE_MAX_BYTES {
        return Ok(());
    }
    proof {
        reveal_strlit(" is ");
        reveal_strlit(" bytes, over the limit of ");
    }
    let mut m = String::new();
    push_str(&mut m, url);
    push_str(&mut m, " is ");
    push_decimal(&mut m, length);
    push_str(&mut m, " bytes, over the limit of ");
    push_decimal(&mut m, CONTENT_IMAGE_MAX_BYTES);
    Err(m)
}

/// The message when the server answered the request for `url` with a status that is not a
/// success, `status` as the server's status line gives it.
pub open spec fn bad_status_message(url: Seq<char>, status: Seq<char>) -> Seq<char> {
    url + " returned HTTP status "@ + status
}

/// Checks the answer to the request for the image at `url` before its body is read: the status
/// must be a success (`success`; `status` is its text), and the length the server declares, if
/// any, must be within the download limit.
pub fn check_image_response(url: &str, success: bool, status: &str, declared: Option<u64>) -> (r: Result<(), String>)
    ensures
        r is Ok <==> success && !(declared matches Some(l) && l > CONTENT_IMAGE_MAX_BYTES),
        r matches Err(m) ==> m@ == if !success {
            bad_status_message(url@, status@)
        } else {
            oversized_message(url@, declared->0 as nat)
        },
{
    if !success {
        proof {
            reveal_strlit(" returned HTTP status ");
        }
        let mut m = String::new();
        push_str(&mut m, url);
        push_str(&mut m, " returned HTTP status ");
        push_str(&mut m, status);
        return Err(m);
    }
    match declared {
        Some(length) => check_image_size(url, length),
        None => Ok(()),
    }
}

/// Why a content image could not be downloaded.
#[derive(Debug)]
pub enum DownloadFailure {
    /// Its URL does not resolve to a web address.
    Url(ImageUrlError),
    /// The request failed before an answer came; the message of the failure.
    Request(String),
    /// The answer was refused: a status that is not a success, or too many bytes.
    Rejected(String),
    /// The body of the answer could not be read.
    Body(String),
    /// The bytes are not an image whose size can be read.
    Unreadable(String),
}

/// What the outside world reports while an image is downloaded.
pub enum DownloadEvent {
    /// The image's URL, resolved against the article's URL (see `resolve_image_url`).
    Resolved(Result<ParsedUrl, ImageUrlError>),
    /// The request failed with this message.
    RequestFailed(String),
    /// The server answered: whether its status is a success, its status text, and the length
    /// it declared, if any.
    Answered { success: bool, status: String, declared: Option<u64> },
    /// Reading the body failed with this message.
    BodyFailed(String),
    /// The body that was read.
    Body(Vec<u8>),
    /// The pixel size read from `data`, or why it could not be read.
    Measured { data: Vec<u8>, size: Result<(u32, u32), String> },
}

/// What the download of an image does next.
pub enum DownloadAction {
    /// Send the request for this absolute URL.
    Request(String),
    /// Read the body of the answer.
    ReadBody,
    /// Read the pixel size of these bytes.
    Measure(Vec<u8>),
    /// The download is over: the image's bytes and pixel size, or why there are none.
    Done(Result<(Vec<u8>, u32, u32), DownloadFailure>),
}

/// Decides the next step of downloading the image at `url` from what the last step reported:
/// a resolved web address is requested; an answer is read when its status is a success and it
/// declares no more bytes than the limit; a body within the limit is measured; a measured image
/// is the result; every failure ends the download with its reason.
pub fn download_step(url: &str, event: DownloadEvent) -> (a: DownloadAction)
    ensures
        match event {
            DownloadEvent::Resolved(Ok(p)) => a matches DownloadAction::Request(u) && u@ == p.text_view(),
            DownloadEvent::Resolved(Err(e)) => a == DownloadAction::Done(Err(DownloadFailure::Url(e))),
            DownloadEvent::RequestFailed(m) => a == DownloadAction::Done(Err(DownloadFailure::Request(m))),
            DownloadEvent::Answered { success, status, declared } => if success && !(declared matches Some(l) && l
                > CONTENT_IMAGE_MAX_BYTES) {
                a is ReadBody
            } else {
                a matches DownloadAction::Done(Err(DownloadFailure::Rejected(m))) && m@ == if !success {
                    bad_status_message(url@, status@)
                } else {
                    oversized_message(url@, declared->0 as nat)
                }
            },
            DownloadEvent::BodyFailed(m) => a == DownloadAction::Done(Err(DownloadFailure::Body(m))),
            DownloadEvent::Body(d) => if d@.len() <= CONTENT_IMAGE_MAX_BYTES {
                a == DownloadAction::Measure(d)
            } else {
                a matches DownloadAction::Done(Err(DownloadFailure::Rejected(m))) && m@ == oversized_message(
                    url@,
                    d@.len(),
                )
            },
            DownloadEvent::Measured { data, size } => match size {
                Ok((w, h)) => a == DownloadAction::Done(Ok((data, w, h))),
                Err(m) => a == DownloadAction::Done(Err(DownloadFailure::Unreadable(m))),
            },
        },
{
    match event {
        DownloadEvent::Resolved(Ok(p)) => DownloadAction::Request(p.as_text().to_owned()),
        DownloadEvent::Resolved(Err(e)) => DownloadAction::Done(Err(DownloadFailure::Url(e))),
        DownloadEvent::RequestFailed(m) => DownloadAction::Done(Err(DownloadFailure::Request(m))),
        DownloadEvent::Answered { success, status, declared } => match check_image_response(url, success, status.as_str(), declared) {
            Ok(()) => DownloadAction::ReadBody,
            Err(m) => DownloadAction::Done(Err(DownloadFailure::Rejected(m))),
        },
        DownloadEvent::BodyFailed(m) => DownloadAction::Done(Err(DownloadFailure::Body(m))),
        DownloadEvent::Body(d) => {
            let n = d.len() as u64;
            match check_image_size(url, n) {
                Ok(()) => DownloadAction::Measure(d),
                Err(m) => DownloadAction::Done(Err(DownloadFailure::Rejected(m))),
            }
        },
        DownloadEvent::Measured { data, size } => match size {
            Ok((w, h)) => DownloadAction::Done(Ok((data, w, h))),
            Err(m) => DownloadAction::Done(Err(DownloadFailure::Unreadable(m))),
        },
    }
}

} // verus!
