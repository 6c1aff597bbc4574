//! User credential authentication.
//!
//! Credentials are verified by the program that queries the local directory
//! service — the same backend used by the login window and other system
//! services.
use crate::text::texts;
use vstd::prelude::*;

verus! {

/// The arguments with which a user's password is verified.
pub fn dscl_args(username: &str, password: &str) -> (args: Vec<String>)
    ensures
        texts(args@) == seq!["/Local/Default"@, "-authonly"@, username@, password@],
{
    let mut args: Vec<String> = Vec::new();
    args.push("/Local/Default".to_string());
    args.push("-authonly".to_string());
    args.push(username.to_string());
    args.push(password.to_string());
    proof {
        assert(texts(args@) =~= seq!["/Local/Default"@, "-authonly"@, username@, password@]);
    }
    args
}

/// Whether the password matches the user account: `exited` is whether the
/// program that verifies it succeeded, or `None` where it could not be run.
/// Credentials are rejected on infrastructure errors.
pub fn verify_user_password(exited: Option<bool>) -> (accepted: bool)
    ensures
        accepted == (exited == Some(true)),
{
    match exited {
        Some(success) => success,
        None => false,
    }
}

} // verus!
