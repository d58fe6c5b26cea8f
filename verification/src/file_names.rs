//! The names of the files a person saves: a chosen path keeps its extension
//! when it already has the expected one, in any ASCII case, and gets it
//! otherwise. Reading and replacing a path's extension is `std::path`'s.

use std::path::Path;
use vstd::prelude::*;

use crate::text::{ascii_case_equal, ascii_lower_code, char_ascii_lower_code, chars_of};

verus! {

/// The extension `Path::extension` finds in a path, when it is text.
pub uninterp spec fn file_extension(path: Seq<char>) -> Option<Seq<char>>;

/// `Path::extension`, the extension taken as text. The contract names the
/// result `file_extension`.
#[verifier::external_body]
fn path_extension(path: &str) -> (r: Option<String>)
    ensures
        match r {
            Some(extension) => file_extension(path@) == Some(extension@),
            None => file_extension(path@) is None,
        },
{
    match Path::new(path).extension() {
        Some(extension) => match extension.to_str() {
            Some(text) => Some(text.to_owned()),
            None => None,
        },
        None => None,
    }
}

/// The path that `Path::with_extension` gives.
pub uninterp spec fn path_with_extension(path: Seq<char>, extension: Seq<char>) -> Seq<char>;

/// The extension holds no path separator (`/`, nor `\`, which Windows also
/// takes for one): `PathBuf::set_extension`, which `Path::with_extension`
/// uses, panics on one.
pub open spec fn separator_free(extension: Seq<char>) -> bool {
    !extension.contains('/') && !extension.contains('\\')
}

/// `Path::with_extension`, the result taken as text. The contract names the
/// result `path_with_extension`.
#[verifier::external_body]
fn replace_extension(path: &str, extension: &str) -> (r: String)
    requires
        separator_free(extension@),
    ensures
        r@ == path_with_extension(path@, extension@),
{
    Path::new(path).with_extension(extension).to_string_lossy().into_owned()
}

/// Decides `ascii_case_equal`, as `str::eq_ignore_ascii_case` does.
pub fn str_eq_ignore_ascii_case(a: &str, b: &str) -> (r: bool)
    ensures
        r == ascii_case_equal(a@, b@),
{
    let va = chars_of(a);
    let vb = chars_of(b);
    if va.len() != vb.len() {
        return false;
    }
    let mut i: usize = 0;
    while i < va.len()
        invariant
            i <= va.len(),
            va.len() == vb.len(),
            va@ == a@,
            vb@ == b@,
            forall|k: int| 0 <= k < i ==> ascii_lower_code(#[trigger] va@[k]) == ascii_lower_code(vb@[k]),
        decreases va.len() - i,
    {
        if char_ascii_lower_code(va[i]) != char_ascii_lower_code(vb[i]) {
            return false;
        }
        i = i + 1;
    }
    true
}

/// The path kept when its extension is already the expected one (in any
/// ASCII case), and given that extension otherwise.
pub open spec fn spec_with_extension(path: Seq<char>, extension: Seq<char>) -> Seq<char> {
    match file_extension(path) {
        Some(current) => if ascii_case_equal(current, extension) {
            path
        } else {
            path_with_extension(path, extension)
        },
        None => path_with_extension(path, extension),
    }
}

/// Gives a chosen path the expected extension.
pub fn with_extension(path: String, extension: &str) -> (r: String)
    requires
        separator_free(extension@),
    ensures
        r@ == spec_with_extension(path@, extension@),
{
    let matches = match path_extension(path.as_str()) {
        Some(current) => str_eq_ignore_ascii_case(current.as_str(), extension),
        None => false,
    };
    if matches {
        return path;
    }
    replace_extension(path.as_str(), extension)
}

/// The path of an exported organization profile: it ends in `.json`.
pub fn json_path(path: String) -> (r: String)
    ensures
        r@ == spec_with_extension(path@, "json"@),
{
    proof {
        reveal_strlit("json");
    }
    with_extension(path, "json")
}

} // verus!
