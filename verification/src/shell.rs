//! Shell name.
//!
//! The shell is the last path component of the SHELL environment
//! value; with no value at all it is reported as unknown.

use vstd::prelude::*;

use crate::text::{lemma_split_char_len, split_char, split_char_spec, to_owned_string, view_opt};

verus! {

/// The shell name a path value yields: the part after its last slash.
pub open spec fn shell_name_spec(path: Option<Seq<char>>) -> Seq<char> {
    match path {
        Some(s) => split_char_spec(s, '/').last(),
        None => "unknown"@,
    }
}

/// Extracts the shell name, as `shell_name_spec` says.
pub fn get_shell_name(path: &Option<String>) -> (r: String)
    ensures
        r@ == shell_name_spec(view_opt(*path)),
{
    match path {
        Some(s) => {
            let pieces = split_char(s.as_str(), '/');
            proof {
                lemma_split_char_len(s@, '/');
                assert(crate::text::views_of(pieces@).last() == pieces@.last()@);
            }
            let last = pieces.len() - 1;
            to_owned_string(pieces[last].as_str())
        },
        None => to_owned_string("unknown"),
    }
}

} // verus!
