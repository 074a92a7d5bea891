use cosmwasm_std::{
    ConversionOverflowError, DivideByZeroError, OverflowError, OverflowOperation,
    RecoverPubkeyError, StdError, VerificationError,
};
use query_bundler::error::{ContractError, ErrorToMsg, StdErrorKind};
use query_bundler::query::BundleReturn;

#[test]
fn one_text_per_kind() {
    assert_eq!(StdErrorKind::VerificationErr.to_msg(), "StdError::VerificationErr");
    assert_eq!(StdErrorKind::RecoverPubkeyErr.to_msg(), "StdError::RecoverPubkeyErr");
    assert_eq!(StdErrorKind::GenericErr.to_msg(), "StdError::GenericErr");
    assert_eq!(StdErrorKind::InvalidBase64.to_msg(), "StdError::InvalidBase64");
    assert_eq!(StdErrorKind::InvalidDataSize.to_msg(), "StdError::InvalidDataSize");
    assert_eq!(StdErrorKind::InvalidHex.to_msg(), "StdError::InvalidHex");
    assert_eq!(StdErrorKind::InvalidUtf8.to_msg(), "StdError::InvalidUtf8");
    assert_eq!(StdErrorKind::NotFound.to_msg(), "StdError::NotFound");
    assert_eq!(StdErrorKind::ParseErr.to_msg(), "StdError::ParseErr");
    assert_eq!(StdErrorKind::SerializeErr.to_msg(), "StdError::SerializeErr");
    assert_eq!(StdErrorKind::Overflow.to_msg(), "StdError::Overflow");
    assert_eq!(StdErrorKind::DivideByZero.to_msg(), "StdError::DivideByZero");
    assert_eq!(StdErrorKind::ConversionOverflow.to_msg(), "StdError::ConversionOverflow {}");
}

#[test]
fn texts_of_host_errors() {
    assert_eq!(StdError::generic_err("boom").to_msg(), "StdError::GenericErr");
    assert_eq!(StdError::not_found("token").to_msg(), "StdError::NotFound");
    assert_eq!(StdError::parse_err("Coin", "eof").to_msg(), "StdError::ParseErr");
    assert_eq!(StdError::serialize_err("Msg", "nan").to_msg(), "StdError::SerializeErr");
    assert_eq!(StdError::invalid_data_size(32, 7).to_msg(), "StdError::InvalidDataSize");
    assert_eq!(StdError::invalid_base64("bad pad").to_msg(), "StdError::InvalidBase64");
    assert_eq!(StdError::invalid_hex("odd").to_msg(), "StdError::InvalidHex");
    assert_eq!(StdError::invalid_utf8("byte 3").to_msg(), "StdError::InvalidUtf8");
    assert_eq!(
        StdError::overflow(OverflowError::new(OverflowOperation::Add, 1, 2)).to_msg(),
        "StdError::Overflow"
    );
    assert_eq!(
        StdError::divide_by_zero(DivideByZeroError::new(5)).to_msg(),
        "StdError::DivideByZero"
    );
    assert_eq!(
        StdError::from(ConversionOverflowError::new("u64", "u8", "300")).to_msg(),
        "StdError::ConversionOverflow {}"
    );
    assert_eq!(
        StdError::verification_err(VerificationError::GenericErr).to_msg(),
        "StdError::VerificationErr"
    );
    assert_eq!(
        StdError::recover_pubkey_err(RecoverPubkeyError::InvalidSignatureFormat).to_msg(),
        "StdError::RecoverPubkeyErr"
    );
}

#[test]
fn errors_of_one_kind_give_one_text() {
    assert_eq!(StdError::generic_err("boom").to_msg(), StdError::generic_err("bang").to_msg());
    assert_eq!(StdError::not_found("token").to_msg(), StdError::not_found("coin").to_msg());
    assert_eq!(
        StdError::parse_err("Coin", "eof").to_msg(),
        StdError::parse_err("Token", "bad digit").to_msg()
    );
    assert_eq!(
        StdError::invalid_data_size(32, 7).to_msg(),
        StdError::invalid_data_size(1, 1000).to_msg()
    );
    assert_ne!(StdError::generic_err("x").to_msg(), StdError::not_found("x").to_msg());
}

#[test]
fn contract_error_messages() {
    assert_eq!(
        ContractError::GenericError("Execute disabled".to_string()).message(),
        "Error Message: Execute disabled"
    );
    assert_eq!(
        ContractError::Std(StdError::generic_err("boom")).message(),
        "Generic error: boom"
    );
    assert_eq!(
        ContractError::Std(StdError::not_found("token")).message(),
        StdError::not_found("token").to_string()
    );
}

#[test]
fn bundle_return_constructors() {
    assert_eq!(BundleReturn::success(7u32), BundleReturn::Success(7u32));
    assert_eq!(
        BundleReturn::<u32>::error("Nonexistent key".to_string()),
        BundleReturn::Error("Nonexistent key".to_string())
    );
    assert_ne!(
        BundleReturn::success(String::new()),
        BundleReturn::error(String::new())
    );
}
