//! Runtime configuration read from the environment, and the secret it may
//! hold.
//!
//! The values are read while running, never while compiling, so none can
//! end up inside a published binary. Reading the environment is the
//! caller's part; these functions decide what a value read means.

use vstd::prelude::*;

use crate::error::Error;
use crate::text::{is_blank, is_blank_spec};

verus! {

/// Directory holding the packwiz pack.
pub const PACK_ROOT: &'static str = "PACK_ROOT";

/// The CurseForge API key.
pub const CF_API_KEY: &'static str = "CF_API_KEY";

/// A value that must not reach logs, errors, or serialized output. Both of
/// its renderings redact it.
pub struct Secret(String);

/// What a secret renders as.
pub open spec fn redacted() -> Seq<char> {
    "<redacted>"@
}

/// What a secret renders as in debug output.
pub open spec fn redacted_debug() -> Seq<char> {
    "Secret(<redacted>)"@
}

/// A key's fingerprint: its first and last four characters around `...`,
/// for a key of at least twelve characters, so that most of it stays
/// hidden; a shorter key shows nothing but `...`.
pub open spec fn fingerprint_of(s: Seq<char>) -> Seq<char> {
    if s.len() >= 12 {
        s.take(4) + "..."@ + s.skip(s.len() - 4)
    } else {
        "..."@
    }
}

impl Secret {
    /// The value held.
    pub closed spec fn value(&self) -> Seq<char> {
        self.0@
    }

    /// Wraps a value.
    pub fn new(value: String) -> (r: Secret)
        ensures
            r.value() == value@,
    {
        Secret(value)
    }

    /// Hands out the real value. Call this at the point of use, never
    /// earlier.
    pub fn expose(&self) -> (r: &str)
        ensures
            r@ == self.value(),
    {
        self.0.as_str()
    }

    /// The secret as displayed: `<redacted>`, whatever it holds.
    pub fn to_display_string(&self) -> (r: String)
        ensures
            r@ == redacted(),
    {
        String::from_str("<redacted>")
    }

    /// The secret as debug-printed: `Secret(<redacted>)`, whatever it holds.
    pub fn to_debug_string(&self) -> (r: String)
        ensures
            r@ == redacted_debug(),
    {
        String::from_str("Secret(<redacted>)")
    }

    /// A short fingerprint of the key, to tell keys apart without showing
    /// one.
    pub fn fingerprint(&self) -> (r: String)
        ensures
            r@ == fingerprint_of(self.value()),
    {
        let s = self.0.as_str();
        let n = s.unicode_len();
        if n >= 12 {
            let mut out = String::from_str(s.substring_char(0, 4));
            out.append("...");
            out.append(s.substring_char(n - 4, n));
            assert(s@.subrange(0, 4) =~= s@.take(4));
            assert(s@.subrange(n - 4, n as int) =~= s@.skip(n - 4));
            out
        } else {
            String::from_str("...")
        }
    }
}

impl Clone for Secret {
    fn clone(&self) -> (r: Self)
        ensures
            r.value() == self.value(),
    {
        Secret(self.0.clone())
    }
}

/// What a variable's value counts as: set, and not blank.
pub open spec fn given(value: Option<String>) -> bool {
    match value {
        Some(v) => !is_blank_spec(v@),
        None => false,
    }
}

/// The pack directory, from the value of `PACK_ROOT`: that value when it is
/// set and not blank, else the working directory (`.`).
pub fn pack_root(value: Option<String>) -> (r: String)
    ensures
        r@ == (if given(value) {
            value.unwrap()@
        } else {
            "."@
        }),
{
    match value {
        Some(v) => {
            if !is_blank(v.as_str()) {
                v
            } else {
                String::from_str(".")
            }
        },
        None => String::from_str("."),
    }
}

/// The CurseForge API key, from the value of `CF_API_KEY`: that value when
/// it is set and not blank, else [`Error::MissingEnv`] naming the variable.
pub fn curseforge_api_key(value: Option<String>) -> (r: Result<Secret, Error>)
    ensures
        match r {
            Ok(s) => given(value) && s.value() == value.unwrap()@,
            Err(e) => !given(value) && e == Error::MissingEnv(CF_API_KEY),
        },
{
    match value {
        Some(v) => {
            if !is_blank(v.as_str()) {
                Ok(Secret(v))
            } else {
                Err(Error::MissingEnv(CF_API_KEY))
            }
        },
        None => Err(Error::MissingEnv(CF_API_KEY)),
    }
}

} // verus!
