//! The decisions of the download endpoint: which route a request path
//! takes, and the headers of a download.

use vstd::prelude::*;
use crate::text::{decimal, file_name_of, final_name, numbered, str_eq, to_string_exact};

verus! {

#[derive(Debug, Clone, Copy, PartialEq, Eq, Structural)]
pub enum Route {
    /// `/ping`: a liveness answer.
    Ping,
    /// The host path: the archive itself.
    Download,
    /// Anything else.
    NotFound,
}

pub open spec fn route_of(path: Seq<char>, host_path: Seq<char>) -> Route {
    if path == "/ping"@ {
        Route::Ping
    } else if path.len() > 0 && path.drop_first() == host_path {
        Route::Download
    } else {
        Route::NotFound
    }
}

/// The route of a request path such as `/world`.
pub fn route(path: &str, host_path: &str) -> (r: Route)
    ensures
        r == route_of(path@, host_path@),
{
    if str_eq(path, "/ping") {
        return Route::Ping;
    }
    let n = path.unicode_len();
    if n > 0 {
        let rest = path.substring_char(1, n);
        assert(rest@ =~= path@.drop_first());
        if str_eq(rest, host_path) {
            return Route::Download;
        }
    }
    Route::NotFound
}

/// The value of the `Content-Disposition` header of a download of the file
/// at `archive_path`; `None` when the path has no final name.
pub fn content_disposition(archive_path: &str) -> (r: Option<String>)
    ensures
        r matches Some(v) ==> final_name(archive_path@) matches Some(n) && v@ == "attachment; filename=\""@
            + n + "\""@,
        r is None <==> final_name(archive_path@) is None,
{
    match file_name_of(archive_path) {
        Some(name) => {
            let mut v = to_string_exact("attachment; filename=\"");
            v.append(name.as_str());
            v.append("\"");
            Some(v)
        },
        None => None,
    }
}

/// The value of the `Content-Length` header for a file of `size` bytes.
pub fn content_length(size: u64) -> (r: String)
    ensures
        r@ == decimal(size as nat),
{
    proof {
        reveal_strlit("");
    }
    let r = numbered("", size as u128, "");
    assert(r@ =~= decimal(size as nat));
    r
}

} // verus!
