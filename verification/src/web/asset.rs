//! The bridge's static files.

use vstd::prelude::*;
use crate::text;

verus! {

/// A reply to an HTTP request.
#[derive(Debug, PartialEq, Eq)]
pub enum Reply {
    /// A file, with its media type.
    File { content_type: &'static str, data: Vec<u8> },
    /// A status code and a line of plain text.
    Plain { status: u16, message: String },
}

/// `Reply` by its characters and bytes.
pub ghost enum ReplyView {
    File { content_type: Seq<char>, data: Seq<u8> },
    Plain { status: u16, message: Seq<char> },
}

impl View for Reply {
    type V = ReplyView;

    open spec fn view(&self) -> ReplyView {
        match *self {
            Reply::File { content_type, data } => ReplyView::File {
                content_type: content_type@,
                data: data@,
            },
            Reply::Plain { status, message } => ReplyView::Plain { status, message: message@ },
        }
    }
}

/// A plain-text reply.
pub open spec fn plain(status: u16, message: Seq<char>) -> ReplyView {
    ReplyView::Plain { status, message }
}

/// The media type of a file, by the ending of its path.
pub open spec fn media_type(path: Seq<char>) -> Seq<char> {
    if text::ends_with(path, ".html"@) {
        "text/html; charset=utf-8"@
    } else if text::ends_with(path, ".js"@) {
        "application/javascript; charset=utf-8"@
    } else if text::ends_with(path, ".css"@) {
        "text/css; charset=utf-8"@
    } else {
        "application/octet-stream"@
    }
}

/// The file that a request path asks for: the path without the slashes that it
/// starts with, or the index page where nothing is left of it.
pub open spec fn asset_path(path: Seq<char>) -> Seq<char> {
    let raw = text::trim_leading(path, '/');
    if raw.len() == 0 {
        "index.html"@
    } else {
        raw
    }
}

/// The media type of a file.
pub fn content_type_for(path: &str) -> (content_type: &'static str)
    ensures
        content_type@ == media_type(path@),
{
    if text::has_suffix(path, ".html") {
        "text/html; charset=utf-8"
    } else if text::has_suffix(path, ".js") {
        "application/javascript; charset=utf-8"
    } else if text::has_suffix(path, ".css") {
        "text/css; charset=utf-8"
    } else {
        "application/octet-stream"
    }
}

/// The file that a request path asks for.
pub fn static_handler(path: &str) -> (asset: String)
    ensures
        asset@ == asset_path(path@),
{
    let raw = text::without_leading(path, '/');
    if raw.as_str().is_empty() {
        "index.html".to_string()
    } else {
        raw
    }
}

/// The reply to a request for the file at `path`, given what it holds, if there
/// is such a file.
pub fn serve_asset(path: &str, content: Option<Vec<u8>>) -> (reply: Reply)
    ensures
        reply@ == match content {
            Some(data) => ReplyView::File { content_type: media_type(path@), data: data@ },
            None => plain(404, "not found"@),
        },
        match reply {
            Reply::File { data, .. } => content == Some(data),
            Reply::Plain { status, message } => content is None && status == 404 && message@
                == "not found"@,
        },
{
    match content {
        Some(data) => Reply::File { content_type: content_type_for(path), data },
        None => Reply::Plain { status: 404, message: "not found".to_string() },
    }
}

/// What is asked for is always a name, and never one that starts with a slash.
pub proof fn lemma_asset_path_is_relative(path: Seq<char>)
    ensures
        asset_path(path).len() > 0,
        asset_path(path)[0] != '/',
        asset_path(asset_path(path)) == asset_path(path),
{
    reveal_strlit("index.html");
    lemma_trim_leading(path, '/');
}

proof fn lemma_trim_leading(path: Seq<char>, c: char)
    ensures
        text::trim_leading(path, c).len() > 0 ==> text::trim_leading(path, c)[0] != c,
    decreases path.len(),
{
    if path.len() > 0 && path[0] == c {
        lemma_trim_leading(path.skip(1), c);
    }
}

/// A request path asks for what follows its leading slashes, however many there are and
/// whatever it is, and for the index page where nothing follows them.
pub proof fn lemma_asset_path(slashes: Seq<char>, name: Seq<char>)
    requires
        forall|i: int| 0 <= i < slashes.len() ==> #[trigger] slashes[i] == '/',
        name.len() == 0 || name[0] != '/',
    ensures
        name.len() > 0 ==> asset_path(slashes + name) == name,
        name.len() == 0 ==> asset_path(slashes + name) == "index.html"@,
{
    text::lemma_trim_leading(slashes, name, '/');
}

/// Pages, scripts and style sheets are served as what they are, under whatever name;
/// any other file is served as bytes.
pub proof fn lemma_media_type(path: Seq<char>, stem: Seq<char>)
    ensures
        media_type(stem + ".html"@) == "text/html; charset=utf-8"@,
        media_type(stem + ".js"@) == "application/javascript; charset=utf-8"@,
        media_type(stem + ".css"@) == "text/css; charset=utf-8"@,
        (forall|head: Seq<char>|
            path != #[trigger] (head + ".html"@) && path != head + ".js"@ && path != head + ".css"@)
            ==> media_type(path) == "application/octet-stream"@,
{
    reveal_strlit(".html");
    reveal_strlit(".js");
    reveal_strlit(".css");
    let (page, script, style) = (stem + ".html"@, stem + ".js"@, stem + ".css"@);
    assert(page.skip(page.len() - 5) == ".html"@);
    assert(script.skip(script.len() - 3) == ".js"@);
    assert(style.skip(style.len() - 4) == ".css"@);
    assert(script.last() == 's' && style.last() == 's');
    assert(".html"@.last() == 'l');
    if text::ends_with(script, ".html"@) {
        assert(script.skip(script.len() - 5).last() == 's');
    }
    if text::ends_with(style, ".html"@) {
        assert(style.skip(style.len() - 5).last() == 's');
    }
    if text::ends_with(style, ".js"@) {
        assert(style.skip(style.len() - 3)[0] == 'c');
    }
    text::lemma_ends_with(path, ".html"@);
    text::lemma_ends_with(path, ".js"@);
    text::lemma_ends_with(path, ".css"@);
    if forall|head: Seq<char>|
        path != #[trigger] (head + ".html"@) && path != head + ".js"@ && path != head + ".css"@ {
        if text::ends_with(path, ".js"@) {
            let head = choose|head: Seq<char>| path == #[trigger] (head + ".js"@);
            assert(head + ".html"@ != path);
        }
        if text::ends_with(path, ".css"@) {
            let head = choose|head: Seq<char>| path == #[trigger] (head + ".css"@);
            assert(head + ".html"@ != path);
        }
    }
}

} // verus!
