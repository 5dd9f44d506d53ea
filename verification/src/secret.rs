//! Secrets as they are held in memory.
//!
//! A secret lives in a buffer of the `zeroize` crate, which wipes it when it
//! is dropped. What this module trusts of that buffer is stated on the three
//! private functions that reach into it.

use vstd::prelude::*;

verus! {

/// A secret as the user typed it, in a `zeroize::Zeroizing<String>`: its
/// memory is wiped when the value is dropped. What it holds is known by
/// `secret_text` alone.
#[verifier::external_body]
pub struct Secret {
    buf: zeroize::Zeroizing<String>,
}

/// The text that a secret holds.
pub uninterp spec fn secret_text(secret: Secret) -> Seq<char>;

impl View for Secret {
    type V = Seq<char>;

    open spec fn view(&self) -> Seq<char> {
        secret_text(*self)
    }
}

/// Moves `text` into a buffer with `zeroize::Zeroizing::new`. Trusted: that
/// the buffer holds the text as it was given.
#[verifier::external_body]
fn wipe_on_drop(text: String) -> (secret: Secret)
    ensures
        secret_text(secret) == text@,
{
    Secret { buf: zeroize::Zeroizing::new(text) }
}

/// Borrows the text through the buffer's `Deref` and `String::as_str`.
/// Trusted: that this is the text that the buffer holds.
#[verifier::external_body]
fn borrow_text(secret: &Secret) -> (text: &str)
    ensures
        text@ == secret_text(*secret),
{
    secret.buf.as_str()
}

/// Calls `String::pop` through the buffer's `DerefMut`. Trusted: that it
/// takes the last character off a text that has one, and nothing else.
#[verifier::external_body]
fn drop_last_char(secret: &mut Secret)
    requires
        secret_text(*old(secret)).len() > 0,
    ensures
        secret_text(*final(secret)) == secret_text(*old(secret)).drop_last(),
{
    secret.buf.pop();
}

/// What a user types in place of a secret to pass over a credential.
pub const SKIP_TOKEN: &'static str = "/skip";

/// `s` without the line feeds at its end.
pub open spec fn without_trailing_newlines(s: Seq<char>) -> Seq<char>
    decreases s.len(),
{
    if s.len() > 0 && s.last() == '\n' {
        without_trailing_newlines(s.drop_last())
    } else {
        s
    }
}

impl Secret {
    /// Takes `text` as a secret, as it stands.
    pub fn new(text: String) -> (r: Secret)
        ensures
            r@ == text@,
    {
        wipe_on_drop(text)
    }

    /// Takes a line as it was read from the terminal: the line feeds at its
    /// end are dropped, and nothing else is changed.
    pub fn from_line(line: String) -> (r: Secret)
        ensures
            r@ == without_trailing_newlines(line@),
    {
        let mut secret = wipe_on_drop(line);
        secret.strip_newlines();
        secret
    }

    /// The secret's text.
    pub fn as_str(&self) -> (r: &str)
        ensures
            r@ == self@,
    {
        borrow_text(self)
    }

    /// Drops the line feeds at the end of the secret.
    pub fn strip_newlines(&mut self)
        ensures
            final(self)@ == without_trailing_newlines(old(self)@),
    {
        let mut len = borrow_text(self).unicode_len();
        while len > 0 && borrow_text(self).get_char(len - 1) == '\n'
            invariant
                len == self@.len(),
                without_trailing_newlines(self@) == without_trailing_newlines(old(self)@),
            decreases len,
        {
            drop_last_char(self);
            len -= 1;
        }
    }

    /// Whether the user typed the skip token, and nothing else.
    pub fn is_skip(&self) -> (r: bool)
        ensures
            r == (self@ == SKIP_TOKEN@),
    {
        crate::text::same_text(borrow_text(self), SKIP_TOKEN)
    }

    /// Whether two secrets hold the same text.
    pub fn same_as(&self, other: &Secret) -> (r: bool)
        ensures
            r == (self@ == other@),
    {
        crate::text::same_text(borrow_text(self), borrow_text(other))
    }
}

} // verus!
