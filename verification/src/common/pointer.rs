//! JSON Pointer (RFC 6901) reference tokens.
use vstd::prelude::*;
use crate::common::text::{chars_of, replace_all, replace_chars, string_of};

verus! {

/// The decoded form of one JSON Pointer reference token: every `~1` becomes `/`,
/// then every `~0` becomes `~`.
pub open spec fn unescaped_token(token: Seq<char>) -> Seq<char> {
    replace_all(replace_all(token, seq!['~', '1'], seq!['/']), seq!['~', '0'], seq!['~'])
}

/// Decode one JSON Pointer reference token (`~1` → `/`, `~0` → `~`).
///
/// `~1` is substituted before `~0`, so that a literal `~01` decodes to `~1`.
pub fn unescape_pointer_token(token: &str) -> (res: String)
    ensures
        res@ == unescaped_token(token@),
{
    let cs = chars_of(token);
    let tilde_one = vec!['~', '1'];
    let slash = vec!['/'];
    let tilde_zero = vec!['~', '0'];
    let tilde = vec!['~'];
    assert(tilde_one@ =~= seq!['~', '1']);
    assert(slash@ =~= seq!['/']);
    assert(tilde_zero@ =~= seq!['~', '0']);
    assert(tilde@ =~= seq!['~']);
    let step = replace_chars(&cs, &tilde_one, &slash);
    let done = replace_chars(&step, &tilde_zero, &tilde);
    string_of(&done)
}

} // verus!
