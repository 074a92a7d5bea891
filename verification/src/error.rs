//! Errors, and the short texts that a batch gives for them.

use cosmwasm_std::StdError;
use vstd::prelude::*;

verus! {

/// `cosmwasm_std::StdError`, the error of the host's own calls. The library
/// hands such an error on, or reads which kind it is.
#[verifier::external_type_specification]
#[verifier::external_body]
pub struct ExStdError(StdError);

/// Why a whole call failed.
#[derive(Debug, PartialEq)]
pub enum ContractError {
    /// A call into the host failed with this error.
    Std(StdError),
    /// The library itself refused the input, or could not reach the target.
    GenericError(String),
}

/// Why a whole call failed, with the library's own text as a sequence of
/// characters.
pub enum Fatal {
    Host(StdError),
    Message(Seq<char>),
}

impl Fatal {
    /// The text under which the failure is shown: the host's own text for a
    /// host error, and `Error Message: ` before the library's own.
    pub open spec fn shown(self) -> Seq<char> {
        match self {
            Fatal::Host(e) => std_error_shown(e),
            Fatal::Message(msg) => "Error Message: "@ + msg,
        }
    }
}

impl View for ContractError {
    type V = Fatal;

    open spec fn view(&self) -> Fatal {
        match self {
            ContractError::Std(e) => Fatal::Host(*e),
            ContractError::GenericError(msg) => Fatal::Message(msg@),
        }
    }
}

impl ContractError {
    /// The text under which this error is shown.
    pub fn message(&self) -> (r: String)
        ensures
            r@ == self@.shown(),
    {
        match self {
            ContractError::Std(e) => std_error_display(e),
            ContractError::GenericError(msg) => String::from_str("Error Message: ").concat(
                msg.as_str(),
            ),
        }
    }
}

/// The kind of a `cosmwasm_std::StdError`: which of its variants it is. What
/// the variant carries is no part of it.
#[derive(Clone, Copy, Debug, PartialEq, Eq, Structural)]
pub enum StdErrorKind {
    VerificationErr,
    RecoverPubkeyErr,
    GenericErr,
    InvalidBase64,
    InvalidDataSize,
    InvalidHex,
    InvalidUtf8,
    NotFound,
    ParseErr,
    SerializeErr,
    Overflow,
    DivideByZero,
    ConversionOverflow,
}

/// Turns an error into the text that a batch gives for the failed item.
pub trait ErrorToMsg {
    fn to_msg(self) -> String;
}

/// The kind of the host error `e`.
pub uninterp spec fn std_error_kind(e: StdError) -> StdErrorKind;

/// The `Display` text of the host error `e`.
pub uninterp spec fn std_error_shown(e: StdError) -> Seq<char>;

/// Tells the variants of a `cosmwasm_std::StdError` apart: the result is the
/// kind of `e`, one for each variant.
#[verifier::external_body]
pub(crate) fn kind_of(e: StdError) -> (r: StdErrorKind)
    ensures
        r == std_error_kind(e),
{
    match e {
        StdError::VerificationErr { .. } => StdErrorKind::VerificationErr,
        StdError::RecoverPubkeyErr { .. } => StdErrorKind::RecoverPubkeyErr,
        StdError::GenericErr { .. } => StdErrorKind::GenericErr,
        StdError::InvalidBase64 { .. } => StdErrorKind::InvalidBase64,
        StdError::InvalidDataSize { .. } => StdErrorKind::InvalidDataSize,
        StdError::InvalidHex { .. } => StdErrorKind::InvalidHex,
        StdError::InvalidUtf8 { .. } => StdErrorKind::InvalidUtf8,
        StdError::NotFound { .. } => StdErrorKind::NotFound,
        StdError::ParseErr { .. } => StdErrorKind::ParseErr,
        StdError::SerializeErr { .. } => StdErrorKind::SerializeErr,
        StdError::Overflow { .. } => StdErrorKind::Overflow,
        StdError::DivideByZero { .. } => StdErrorKind::DivideByZero,
        StdError::ConversionOverflow { .. } => StdErrorKind::ConversionOverflow,
    }
}

/// The `Display` text of a `cosmwasm_std::StdError`, which is made of the
/// error's variant and of what it carries, and of nothing else.
#[verifier::external_body]
pub(crate) fn std_error_display(e: &StdError) -> (r: String)
    ensures
        r@ == std_error_shown(*e),
{
    e.to_string()
}

impl StdErrorKind {
    /// The text that a batch gives for an item that failed with an error of
    /// this kind: one fixed text per kind.
    pub open spec fn text(self) -> Seq<char> {
        match self {
            StdErrorKind::VerificationErr => "StdError::VerificationErr"@,
            StdErrorKind::RecoverPubkeyErr => "StdError::RecoverPubkeyErr"@,
            StdErrorKind::GenericErr => "StdError::GenericErr"@,
            StdErrorKind::InvalidBase64 => "StdError::InvalidBase64"@,
            StdErrorKind::InvalidDataSize => "StdError::InvalidDataSize"@,
            StdErrorKind::InvalidHex => "StdError::InvalidHex"@,
            StdErrorKind::InvalidUtf8 => "StdError::InvalidUtf8"@,
            StdErrorKind::NotFound => "StdError::NotFound"@,
            StdErrorKind::ParseErr => "StdError::ParseErr"@,
            StdErrorKind::SerializeErr => "StdError::SerializeErr"@,
            StdErrorKind::Overflow => "StdError::Overflow"@,
            StdErrorKind::DivideByZero => "StdError::DivideByZero"@,
            StdErrorKind::ConversionOverflow => "StdError::ConversionOverflow {}"@,
        }
    }
}

impl ErrorToMsg for StdErrorKind {
    fn to_msg(self) -> (r: String)
        ensures
            r@ == self.text(),
    {
        match self {
            StdErrorKind::VerificationErr => String::from_str("StdError::VerificationErr"),
            StdErrorKind::RecoverPubkeyErr => String::from_str("StdError::RecoverPubkeyErr"),
            StdErrorKind::GenericErr => String::from_str("StdError::GenericErr"),
            StdErrorKind::InvalidBase64 => String::from_str("StdError::InvalidBase64"),
            StdErrorKind::InvalidDataSize => String::from_str("StdError::InvalidDataSize"),
            StdErrorKind::InvalidHex => String::from_str("StdError::InvalidHex"),
            StdErrorKind::InvalidUtf8 => String::from_str("StdError::InvalidUtf8"),
            StdErrorKind::NotFound => String::from_str("StdError::NotFound"),
            StdErrorKind::ParseErr => String::from_str("StdError::ParseErr"),
            StdErrorKind::SerializeErr => String::from_str("StdError::SerializeErr"),
            StdErrorKind::Overflow => String::from_str("StdError::Overflow"),
            StdErrorKind::DivideByZero => String::from_str("StdError::DivideByZero"),
            StdErrorKind::ConversionOverflow => String::from_str(
                "StdError::ConversionOverflow {}",
            ),
        }
    }
}

impl ErrorToMsg for StdError {
    /// The text of this error's kind.
    fn to_msg(self) -> (r: String)
        ensures
            r@ == std_error_kind(self).text(),
    {
        kind_of(self).to_msg()
    }
}

/// Errors of one kind give one text: what an error carries besides its kind
/// has no part in the text that a batch gives for it.
pub proof fn lemma_one_text_per_kind(first: StdError, second: StdError)
    requires
        std_error_kind(first) == std_error_kind(second),
    ensures
        std_error_kind(first).text() == std_error_kind(second).text(),
{
}

} // verus!
