//! Typed secrets for config structs: redacted in debug output and only
//! reachable through explicit accessors.

use vstd::prelude::*;
use vstd::std_specs::convert::FromSpecImpl;

verus! {

/// A value that never leaks into debug output: tokens, API keys, ...
#[derive(Clone, PartialEq, Eq, Hash)]
pub struct Secret<T>(T);

impl<T> View for Secret<T> {
    type V = T;

    closed spec fn view(&self) -> T {
        self.0
    }
}

impl<T> Secret<T> {
    /// Wrap a value as a secret.
    pub fn new(value: T) -> (s: Self)
        ensures
            s@ == value,
    {
        Secret(value)
    }

    /// Borrow the secret value. This is the only way out; prefer
    /// [`Secret::into_inner`] to keep the secret owned and local.
    pub fn expose(&self) -> (r: &T)
        ensures
            *r == self@,
    {
        &self.0
    }

    /// Consume the secret and return its value.
    pub fn into_inner(self) -> (r: T)
        ensures
            r == self@,
    {
        self.0
    }

    /// What debug output shows in place of the value.
    pub fn redacted(&self) -> (r: &'static str)
        ensures
            r@ == "<redacted>"@,
    {
        "<redacted>"
    }
}

impl<T> From<T> for Secret<T> {
    fn from(value: T) -> (s: Self) {
        Secret(value)
    }
}

impl<T> FromSpecImpl<T> for Secret<T> {
    open spec fn obeys_from_spec() -> bool {
        true
    }

    closed spec fn from_spec(v: T) -> Self {
        Secret(v)
    }
}

impl<'a> From<&'a str> for Secret<String> {
    fn from(value: &'a str) -> (s: Self)
        ensures
            s@@ == value@,
    {
        Secret(value.to_owned())
    }
}

impl<'a> FromSpecImpl<&'a str> for Secret<String> {
    open spec fn obeys_from_spec() -> bool {
        false
    }

    closed spec fn from_spec(v: &'a str) -> Self {
        arbitrary()
    }
}

impl From<Secret<String>> for String {
    fn from(secret: Secret<String>) -> (s: Self) {
        secret.0
    }
}

impl FromSpecImpl<Secret<String>> for String {
    open spec fn obeys_from_spec() -> bool {
        true
    }

    open spec fn from_spec(v: Secret<String>) -> String {
        v@
    }
}

} // verus!
