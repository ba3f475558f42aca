//! Decisions made while acquiring input: recognizing a gzip payload by
//! its magic number, and reading a boolean query flag. The fetching
//! itself — HTTP, object storage, decompression — is I/O that lives
//! outside the library.

use vstd::prelude::*;

verus! {

/// Whether a payload starts with the gzip magic number, so that a
/// fetching front end knows to decompress it before handing the text on.
pub fn is_gzip(data: &Vec<u8>) -> (r: bool)
    ensures
        r == (data@.len() >= 2 && data@[0] == 0x1f && data@[1] == 0x8b),
{
    data.len() >= 2 && data[0] == 0x1f && data[1] == 0x8b
}

/// Whether an optional query parameter switches a flag on: only the
/// values "true" and "1" do; anything else, or no value, leaves it off.
pub fn flag_set(v: Option<&String>) -> (r: bool)
    ensures
        r == (v matches Some(s) && (s@ == "true"@ || s@ == "1"@)),
{
    match v {
        Some(s) => {
            let t = String::from_str("true");
            let one = String::from_str("1");
            *s == t || *s == one
        },
        None => false,
    }
}

} // verus!
