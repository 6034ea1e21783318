//! Which file the frontend is answered with.

use vstd::prelude::*;

use crate::text::{concat3, trim_start_matches, without_leading};

verus! {

/// The media type that `mime_guess` gives for a path.
pub uninterp spec fn mime_text(path: Seq<char>) -> Seq<char>;

/// The media type for a path, by `mime_guess::from_path` and
/// `first_or_octet_stream`. It depends on the path alone.
#[verifier::external_body]
pub(crate) fn mime_from_path(path: &str) -> (mime: String)
    ensures
        mime@ == mime_text(path@),
{
    mime_guess::from_path(path).first_or_octet_stream().as_ref().to_owned()
}

/// What a reply shows.
#[derive(Clone, Copy, Debug, PartialEq, Eq, Structural)]
pub enum Shown {
    /// The file that was asked for.
    File,
    /// The start page, which finds its own way.
    Index,
    /// The text `404 Not Found`.
    NotFound,
}

/// A reply to a request for a file.
#[derive(Debug, PartialEq, Eq)]
pub struct FileReply {
    pub status: u16,
    pub content_type: Option<String>,
    pub shown: Shown,
}

/// The path of the file that a request asks for.
pub fn requested_path(uri: &str) -> (path: String)
    ensures
        path@ == without_leading(uri@, '/'),
{
    trim_start_matches(uri, '/')
}

/// The reply to a request for a file, given its media type. A path without a
/// file is answered with the start page, so that the frontend can route it.
pub fn reply_for(media_type: String, has_file: bool, has_index: bool) -> (reply: FileReply)
    ensures
        reply.shown == if has_file {
            Shown::File
        } else if has_index {
            Shown::Index
        } else {
            Shown::NotFound
        },
        reply.status == if has_file || has_index {
            200u16
        } else {
            404u16
        },
        match reply.content_type {
            Some(content_type) => (has_file || has_index) && content_type@ == if has_file {
                media_type@
            } else {
                "text/html"@
            },
            None => !has_file && !has_index,
        },
{
    if has_file {
        FileReply { status: 200, content_type: Some(media_type), shown: Shown::File }
    } else if has_index {
        FileReply { status: 200, content_type: Some("text/html".to_owned()), shown: Shown::Index }
    } else {
        FileReply { status: 404, content_type: None, shown: Shown::NotFound }
    }
}

/// The reply to a request for the file at `path`.
pub fn serve_file(path: &str, has_file: bool, has_index: bool) -> (reply: FileReply)
    ensures
        reply.shown == if has_file {
            Shown::File
        } else if has_index {
            Shown::Index
        } else {
            Shown::NotFound
        },
        reply.status == if has_file || has_index {
            200u16
        } else {
            404u16
        },
        match reply.content_type {
            Some(content_type) => (has_file || has_index) && content_type@ == if has_file {
                mime_text(path@)
            } else {
                "text/html"@
            },
            None => !has_file && !has_index,
        },
{
    reply_for(mime_from_path(path), has_file, has_index)
}

/// What a development backend, which serves no frontend, answers. The port is
/// that of the frontend's own server, where it is configured.
pub fn development_hint(frontend_port: Option<String>) -> (reply: (u16, String))
    ensures
        reply.0 == 404,
        reply.1@ == "Development backend serves API only. Open http://localhost:"@
            + match frontend_port {
            Some(port) => port@,
            None => "3000"@,
        } + " instead."@,
{
    let port = match frontend_port {
        Some(port) => port,
        None => "3000".to_owned(),
    };
    (
        404,
        concat3(
            "Development backend serves API only. Open http://localhost:",
            &port,
            " instead.",
        ),
    )
}

} // verus!
