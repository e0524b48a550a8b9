//! The library's error type and result alias.

use vstd::prelude::*;

verus! {

/// Why an operation of the library failed.
#[derive(Debug)]
pub enum Error {
    /// A free-form message.
    Custom(String),
    /// A lookup found nothing.
    NotFound,
    /// Elevated privileges were required but no password is set.
    Sudo,
    /// A repository URL that does not hold at least an owner and a name.
    Repository(String),
    /// A revision hash too short to abbreviate.
    Hash(String),
    /// The operator abandoned an interaction.
    UserAbort,
    /// Two password entries that do not match.
    PasswordsDoNotMatch,
    /// A derived resolver key whose leading bytes differ from the required
    /// prefix: expected, then actual.
    ResolverKeyPrefix(u16, u16),
}

/// The outcome of a library operation.
pub type Result<T> = core::result::Result<T, Error>;

/// The description that [`Error::message`] renders for each variant.
pub open spec fn error_message(e: Error) -> Seq<char> {
    match e {
        Error::Custom(s) => s@,
        Error::NotFound => "Not found"@,
        Error::Sudo => "Sudo password is not set"@,
        Error::Repository(s) => "Invalid repository URL: "@ + s@,
        Error::Hash(s) => "Hash "@ + s@,
        Error::UserAbort => "User abort"@,
        Error::PasswordsDoNotMatch => "Passwords do not match"@,
        Error::ResolverKeyPrefix(expected, actual) => "Resolver key prefix mismatch: expected "@
            + crate::text::hex_digits_fixed(expected as nat, 4) + " got "@
            + crate::text::hex_digits_fixed(actual as nat, 4),
    }
}

impl Error {
    /// An error carrying the given message.
    pub fn custom(msg: String) -> (r: Error)
        ensures
            r == Error::Custom(msg),
    {
        Error::Custom(msg)
    }

    /// The human-readable description of the error.
    pub fn message(&self) -> (r: String)
        ensures
            r@ == error_message(*self),
    {
        match self {
            Error::Custom(s) => s.clone(),
            Error::NotFound => String::from_str("Not found"),
            Error::Sudo => String::from_str("Sudo password is not set"),
            Error::Repository(s) => {
                let mut out = String::from_str("Invalid repository URL: ");
                out.append(s.as_str());
                out
            },
            Error::Hash(s) => {
                let mut out = String::from_str("Hash ");
                out.append(s.as_str());
                out
            },
            Error::UserAbort => String::from_str("User abort"),
            Error::PasswordsDoNotMatch => String::from_str("Passwords do not match"),
            Error::ResolverKeyPrefix(expected, actual) => {
                let mut out = String::from_str("Resolver key prefix mismatch: expected ");
                let e_hex = crate::text::u64_to_hex4(*expected as u64);
                out.append(e_hex.as_str());
                out.append(" got ");
                let a_hex = crate::text::u64_to_hex4(*actual as u64);
                out.append(a_hex.as_str());
                out
            },
        }
    }
}

} // verus!
