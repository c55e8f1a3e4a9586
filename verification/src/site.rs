//! Decisions of the routes that serve the site's files and pages.

use vstd::prelude::*;
use crate::text::{replace_all, replace_seq, str_eq};

verus! {

/// The place holder in the index page that names the page shown first.
pub const START_PAGE_MARK: &'static str = "DUMMYSTARTPAGE";

/// The top-level files that the site serves.
pub open spec fn is_top_file_name(name: Seq<char>) -> bool {
    name == "index.html"@ || name == "favicon.ico"@
}

/// The directories whose files the site serves.
pub open spec fn is_site_dir_name(name: Seq<char>) -> bool {
    name == "css"@ || name == "js"@ || name == "media"@
}

/// Whether `file_name` is a top-level file that the site serves.
pub fn is_top_file(file_name: &str) -> (r: bool)
    ensures
        r == is_top_file_name(file_name@),
{
    str_eq(file_name, "index.html") || str_eq(file_name, "favicon.ico")
}

/// Whether `path_name` is a directory whose files the site serves.
pub fn is_site_dir(path_name: &str) -> (r: bool)
    ensures
        r == is_site_dir_name(path_name@),
{
    str_eq(path_name, "css") || str_eq(path_name, "js") || str_eq(path_name, "media")
}

/// The index page set to show `page_name` first: every place holder
/// replaced by the page name.
pub fn page_html(index_str: &str, page_name: &str) -> (r: String)
    ensures
        r@ == replace_seq(index_str@, START_PAGE_MARK@, page_name@),
{
    proof {
        reveal_strlit("DUMMYSTARTPAGE");
    }
    replace_all(index_str, START_PAGE_MARK, page_name)
}

/// The answer to a request that reached no route that serves it.
pub struct NonAuthReply {
    /// The HTTP status code.
    pub code: u16,
    /// The value of the `WWW-Authenticate` header, where one is sent.
    pub authenticate: Option<String>,
    /// The body, where one is sent.
    pub body: Option<String>,
}

/// Answers a request that no other route served: where the request is
/// authenticated something is wrong with the server (500, nothing more);
/// otherwise the client is asked for Basic credentials (401, with a
/// `WWW-Authenticate` header and a short body).
pub fn site_get_nonauth(has_user: bool) -> (r: NonAuthReply)
    ensures
        has_user ==> r.code == 500 && r.authenticate is None && r.body is None,
        !has_user ==> r.code == 401,
        !has_user ==> (r.authenticate matches Some(h) && h@ == "Basic realm=RWIKI"@),
        !has_user ==> (r.body matches Some(b) && b@ == "Unauthorized!"@),
{
    if has_user {
        NonAuthReply { code: 500, authenticate: None, body: None }
    } else {
        NonAuthReply {
            code: 401,
            authenticate: Some("Basic realm=RWIKI".to_owned()),
            body: Some("Unauthorized!".to_owned()),
        }
    }
}

} // verus!
