//! Brute-force recovery of a time-based one-time-password secret.
//!
//! The secret space is the set of 20-byte buffers read as little-endian
//! integers. A search splits it into partitions per worker and per attempt,
//! scans each partition linearly and merges the workers' answers by thread id.
use totp_rs::{Algorithm, TOTP};
use vstd::prelude::*;
use vstd::string::*;

pub mod secret;
pub mod totp;
pub mod search;
pub mod migration;

verus! {

pub use crate::search::try_find;
pub use crate::migration::{create_migration_qr, create_migration_uri, DigitCount, OtpCode};
use crate::search::{TOTP_SKEW, TOTP_STEP};
use crate::totp::{opt_string_view, sha1_totp_qr, str_result_view, totp_params_valid};

/// A QR code, as a base64 PNG, of the `otpauth://` URL of an HMAC-SHA1
/// generator with a 30-second step. Parameters that the generator refuses
/// (a digit count outside 6 to 8, a secret under 16 bytes, a `:` in issuer
/// or account name) give `Err("Invalid configuration")`; accepted ones give
/// the drawing, image or drawing error.
pub fn get_qr_code(
    secret: Vec<u8>,
    issuer: Option<String>,
    account_name: String,
    n_digits: usize,
) -> (r: Result<String, String>)
    ensures
        !totp_params_valid(n_digits, secret@, issuer, account_name@) ==> r is Err && r->Err_0@
            == "Invalid configuration"@,
        totp_params_valid(n_digits, secret@, issuer, account_name@) ==> str_result_view(r)
            == sha1_totp_qr(
            secret@,
            n_digits,
            TOTP_STEP,
            opt_string_view(issuer),
            account_name@,
        ),
{
    match TOTP::new(Algorithm::SHA1, n_digits, TOTP_SKEW, TOTP_STEP, secret, issuer, account_name) {
        Ok(totp) => totp.get_qr_base64(),
        Err(_) => Err(String::from_str("Invalid configuration")),
    }
}

} // verus!
