//! What the login and sign-up forms check before they send a request.

use vstd::prelude::*;
use crate::decimal::{parse_usize, parse_usize_spec};

verus! {

/// A form can be sent when both the name and the password are filled in.
pub fn form_filled(name: &str, pwd: &str) -> (r: bool)
    ensures
        r == (name@.len() != 0 && pwd@.len() != 0),
{
    !(name.unicode_len() == 0 || pwd.unicode_len() == 0)
}

/// The id typed into the login form; it must read as a `usize`.
pub fn form_id(text: &str) -> (r: usize)
    requires
        parse_usize_spec(text@) is Some,
    ensures
        Some(r) == parse_usize_spec(text@),
{
    parse_usize(text).unwrap()
}

} // verus!
