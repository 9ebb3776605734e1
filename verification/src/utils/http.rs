use crate::text::{after_last, last_segment};
use vstd::prelude::*;
use vstd::string::*;

verus! {

/// The envelope of a response: a code, a message and a body.
#[derive(Debug, PartialEq, Eq)]
pub struct HttpResponse<T> {
    pub code: u16,
    pub message: String,
    pub body: T,
}

impl<T> HttpResponse<T> {
    /// An envelope of the three parts.
    pub fn new(code: u16, message: String, body: T) -> (r: Self)
        ensures
            r.code == code,
            r.message == message,
            r.body == body,
    {
        HttpResponse { code, message, body }
    }
}

/// The file name under which the content of `url` is stored: what follows
/// the last slash of the URL.
pub open spec fn download_name(url: Seq<char>) -> Seq<char> {
    last_segment(url, '/')
}

/// The path of the downloaded file: the target directory and the file name,
/// with a slash between them unless the directory ends with one or is
/// empty.
pub open spec fn download_path(dest_dir: Seq<char>, url: Seq<char>) -> Seq<char> {
    if dest_dir.len() == 0 || dest_dir.last() == '/' {
        dest_dir + download_name(url)
    } else {
        dest_dir + seq!['/'] + download_name(url)
    }
}

/// Where a download of `url` into `dest_dir` is written.
pub fn download_target(url: &str, dest_dir: &str) -> (r: String)
    ensures
        r@ == download_path(dest_dir@, url@),
{
    let name = after_last(url, '/');
    let n = dest_dir.unicode_len();
    let mut out = String::from_str(dest_dir);
    if n > 0 && dest_dir.get_char(n - 1) != '/' {
        proof {
            reveal_strlit("/");
            assert("/"@ =~= seq!['/']);
        }
        out.append("/");
    }
    out.append(name.as_str());
    out
}

} // verus!
