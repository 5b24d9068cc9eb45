//! What this library relies on from `totp_rs`.
use totp_rs::{Algorithm, TotpUrlError, TOTP};
use vstd::prelude::*;

verus! {

#[verifier::external_type_specification]
pub struct ExAlgorithm(Algorithm);

#[verifier::external_type_specification]
pub struct ExTotp(TOTP);

#[verifier::external_type_specification]
#[verifier::external_body]
pub struct ExTotpUrlError(TotpUrlError);

/// The code that `TOTP::generate` gives for an HMAC-SHA1 generator.
pub uninterp spec fn sha1_totp_code(secret: Seq<u8>, digits: usize, step: u64, time: u64) -> Seq<char>;

/// What `TOTP::get_qr_base64` gives for an HMAC-SHA1 generator: a base64
/// PNG image, or the drawer's error.
pub uninterp spec fn sha1_totp_qr(
    secret: Seq<u8>,
    digits: usize,
    step: u64,
    issuer: Option<Seq<char>>,
    account_name: Seq<char>,
) -> Result<Seq<char>, Seq<char>>;

pub open spec fn str_result_view(r: Result<String, String>) -> Result<Seq<char>, Seq<char>> {
    match r {
        Ok(v) => Ok(v@),
        Err(e) => Err(e@),
    }
}

pub open spec fn has_colon(s: Seq<char>) -> bool {
    exists|i: int| 0 <= i < s.len() && s[i] == ':'
}

pub open spec fn opt_string_view(s: Option<String>) -> Option<Seq<char>> {
    match s {
        Some(v) => Some(v@),
        None => None,
    }
}

/// The parameters that `TOTP::new` accepts.
pub open spec fn totp_params_valid(
    digits: usize,
    secret: Seq<u8>,
    issuer: Option<String>,
    account_name: Seq<char>,
) -> bool {
    &&& 6 <= digits <= 8
    &&& secret.len() >= 16
    &&& match issuer {
        Some(i) => !has_colon(i@),
        None => true,
    }
    &&& !has_colon(account_name)
}

/// Relies on `TOTP::new`: it checks the digit count (6 to 8), the secret's
/// size (at least 128 bits) and that neither issuer nor account name holds
/// `:`, and otherwise stores its arguments as they are.
pub assume_specification[ TOTP::new ](
    algorithm: Algorithm,
    digits: usize,
    skew: u8,
    step: u64,
    secret: Vec<u8>,
    issuer: Option<String>,
    account_name: String,
) -> (r: Result<TOTP, TotpUrlError>)
    ensures
        r is Ok <==> totp_params_valid(digits, secret@, issuer, account_name@),
        r is Ok ==> r->Ok_0 == (TOTP { algorithm, digits, skew, step, secret, issuer, account_name }),
;

/// Relies on `TOTP::generate`: for SHA-1 the code depends on the secret, the
/// digit count, the step and the time alone. It divides by the step and
/// raises ten to the digit count in `u32`, hence the bounds.
pub assume_specification[ TOTP::generate ](totp: &TOTP, time: u64) -> (r: String)
    requires
        totp.step > 0,
        totp.digits <= 9,
    ensures
        totp.algorithm == Algorithm::SHA1 ==> r@ == sha1_totp_code(
            totp.secret@,
            totp.digits,
            totp.step,
            time,
        ),
;

/// Relies on `TOTP::get_qr_base64`: for SHA-1 the outcome of drawing the
/// generator's `otpauth://` URL, image or error, depends on its secret,
/// digit count, step, issuer and account name alone.
pub assume_specification[ TOTP::get_qr_base64 ](totp: &TOTP) -> (r: Result<String, String>)
    ensures
        totp.algorithm == Algorithm::SHA1 ==> str_result_view(r) == sha1_totp_qr(
            totp.secret@,
            totp.digits,
            totp.step,
            opt_string_view(totp.issuer),
            totp.account_name@,
        ),
;

} // verus!
