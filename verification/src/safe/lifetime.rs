//! Taking tokens off the front of a string slice.
use vstd::prelude::*;
use vstd::string::StringSliceAdditionalSpecFns;
use crate::safe::iter::Delimiter;
use crate::safe::iter::absent;
use crate::safe::iter::rest_behind;
use crate::safe::iter::split_first;
use crate::safe::iter::token_before;

verus! {

/// Takes the token in front of the first `delim` off the front of `s`, and
/// the delimiter with it. Where `s` holds no `delim`, the token is all of
/// `s`, and `s` is left empty.
pub fn str_tok<'s>(s: &mut &'s str, delim: char) -> (token: Option<&'s str>)
    ensures
        token is Some,
        if absent((*old(s)).spec_bytes(), delim.needle()) {
            token == Some(*old(s)) && (*final(s))@.len() == 0
        } else {
            &&& token->0.spec_bytes() == token_before((*old(s)).spec_bytes(), delim.needle())
            &&& (*final(s)).spec_bytes() == rest_behind((*old(s)).spec_bytes(), delim.needle())
        },
{
    let whole: &'s str = *s;
    match split_first(whole, &delim) {
        Some((token, rest)) => {
            *s = rest;
            Some(token)
        },
        None => {
            *s = "";
            proof {
                reveal_strlit("");
            }
            Some(whole)
        },
    }
}

} // verus!
