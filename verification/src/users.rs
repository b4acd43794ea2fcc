//! Who may log in.
//!
//! A login is a name and a password with a colon between them. The name
//! is not empty and takes at most `MAX_NAME_LENGTH` bytes; the password is
//! `PASSWORD_LENGTH` decimal digits.

use vstd::prelude::*;
use vstd::slice::slice_subrange;
use crate::app::byte_len;
use crate::message::is_digit;
use crate::text::{from_chars, lemma_span_len, span_end, span_len, to_chars};

verus! {

/// Most bytes of a name.
pub const MAX_NAME_LENGTH: usize = 13;

/// The number of digits of a password.
pub const PASSWORD_LENGTH: usize = 6;

/// `name` is not empty and takes no more than `MAX_NAME_LENGTH` bytes.
pub open spec fn valid_name(name: Seq<char>) -> bool {
    name.len() > 0 && byte_len(name) <= MAX_NAME_LENGTH
}

/// `password` is made of `PASSWORD_LENGTH` digits.
pub open spec fn valid_password(password: Seq<char>) -> bool {
    &&& password.len() == PASSWORD_LENGTH
    &&& forall|i: int| 0 <= i < password.len() ==> is_digit(#[trigger] password[i])
}

/// The name under which the login `msg` is accepted, if it is: what
/// stands before the first colon, where that is a name of the right
/// length and what stands behind the colon is a password.
pub open spec fn spec_login(msg: Seq<char>) -> Option<Seq<char>> {
    let n = span_len(msg, ':');
    if valid_name(msg.take(n)) && n < msg.len() && valid_password(msg.skip(n + 1)) {
        Some(msg.take(n))
    } else {
        None
    }
}

/// An accepted name has the right length and no colon in it, and the
/// login was that name, a colon, and a password.
pub proof fn lemma_accepted_name(msg: Seq<char>)
    requires
        spec_login(msg) is Some,
    ensures
        valid_name(spec_login(msg)->0),
        !spec_login(msg)->0.contains(':'),
        msg == spec_login(msg)->0 + seq![':'] + msg.skip(span_len(msg, ':') + 1),
        valid_password(msg.skip(span_len(msg, ':') + 1)),
        spec_login(msg)->0.len() == span_len(msg, ':'),
{
    lemma_span_len(msg, ':');
    let n = span_len(msg, ':');
    assert(msg =~= msg.take(n) + seq![':'] + msg.skip(n + 1));
}

/// Whether `c` is a decimal digit.
fn digit(c: char) -> (yes: bool)
    ensures
        yes == is_digit(c),
{
    let code: u32 = c as u32;
    48 <= code && code <= 57
}

/// Checks the login `msg` and returns the name under which it is accepted,
/// if it is.
pub fn try_to_login(msg: String) -> (name: Option<String>)
    ensures
        name is Some == spec_login(msg@) is Some,
        name is Some ==> Some(name->0@) == spec_login(msg@),
{
    let chars = to_chars(msg.as_str());
    let colon: usize = span_end(&chars, 0, ':');
    assert(chars@.skip(0) =~= chars@);
    if colon < 1 || colon >= chars.len() {
        return None;
    }
    let name = from_chars(slice_subrange(chars.as_slice(), 0, colon));
    assert(name@ =~= chars@.take(colon as int));
    if name.as_str().as_bytes().len() > MAX_NAME_LENGTH {
        return None;
    }
    let ghost password = chars@.skip(colon + 1);
    if chars.len() - colon - 1 != PASSWORD_LENGTH {
        return None;
    }
    let mut i: usize = colon + 1;
    while i < chars.len()
        invariant
            colon + 1 <= i <= chars.len(),
            password == chars@.skip(colon + 1),
            chars@ == msg@,
            colon == span_len(msg@, ':'),
            name@ == chars@.take(colon as int),
            forall|j: int| 0 <= j < i - colon - 1 ==> is_digit(#[trigger] password[j]),
        decreases chars.len() - i,
    {
        if !digit(chars[i]) {
            assert(!is_digit(password[i - colon - 1]));
            return None;
        }
        i += 1;
    }
    Some(name)
}

} // verus!
