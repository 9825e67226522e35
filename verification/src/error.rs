//! Errors that both contracts share.

use vstd::prelude::*;
use vstd::string::*;
use vstd::utf8::encode_utf8;

use crate::text::{digits, hex_bytes, hex_text, number};

verus! {

/// The arithmetic operation that went out of range.
#[derive(Clone, Copy, Debug, PartialEq, Eq, Structural)]
pub enum OverflowOperation {
    Add,
    Sub,
    Mul,
}

/// What is not stored: its type, and where it would be stored. It is the value of a cell, or
/// the entry of a table under a key.
#[derive(Debug, PartialEq)]
pub struct Missing {
    pub type_path: &'static str,
    pub namespace: &'static str,
    pub key: Option<String>,
}

/// The bytes that something is stored under: the namespace of a cell, and for the entry of a
/// table the namespace behind its length in two bytes, followed by the key.
pub open spec fn storage_key(missing: Missing) -> Seq<u8> {
    let namespace = encode_utf8(missing.namespace@);
    match missing.key {
        None => namespace,
        Some(key) => seq![(namespace.len() / 256) as u8, (namespace.len() % 256) as u8] + namespace
            + encode_utf8(key@),
    }
}

/// What is missing, in words.
pub open spec fn missing_text(missing: Missing) -> Seq<char> {
    "type: "@ + missing.type_path@ + "; key: ["@ + hex_bytes(storage_key(missing)) + "]"@
}

impl Missing {
    /// The bytes that it would be stored under.
    pub fn storage_key(&self) -> (r: Vec<u8>)
        ensures
            r@ == storage_key(*self),
    {
        let mut namespace: Vec<u8> = self.namespace.as_bytes_vec();
        match &self.key {
            None => namespace,
            Some(key) => {
                let len: usize = namespace.len();
                let mut entry: Vec<u8> = key.as_str().as_bytes_vec();
                let mut out: Vec<u8> = Vec::new();
                out.push((len / 256) as u8);
                out.push((len % 256) as u8);
                out.append(&mut namespace);
                out.append(&mut entry);
                assert(out@ =~= storage_key(*self));
                out
            },
        }
    }

    /// What is missing, in words.
    pub fn text(&self) -> (r: String)
        ensures
            r@ == missing_text(*self),
    {
        "type: ".to_string().concat(self.type_path).concat("; key: [").concat(
            hex_text(&self.storage_key()).as_str(),
        ).concat("]")
    }
}

/// A failure that does not belong to one contract alone.
#[derive(Debug, PartialEq)]
pub enum StdError {
    /// A fixed message.
    Generic(&'static str),
    /// Something that should have been stored is not there.
    NotFound(Missing),
    Overflow(OverflowOperation),
    /// A 256-bit intermediate result does not fit in 128 bits.
    ConversionOverflow,
    CommitTooSmall { usd_value: u128 },
    AmountMismatch { denom: String, expected: u128, received: u128 },
    AssetNotInPool { denom: String },
    UnexpectedCoin { denom: String },
    MissingDenom { denom: String },
    /// The committers' ledger could not be read, and more attempts are allowed.
    BatchFailed { attempt: u32, reason: String },
    /// The committers' ledger could not be read once too often.
    BatchAbandoned { failures: u32, reason: String },
    HopOffersItsAsk { hop: usize, token: String },
    OfferNotFromSender { offer: String, sender: String },
    FundsDenomMismatch { funds: String, offer: String },
    UnknownReply { id: u64 },
    /// What the host reported: a failed read, a failed query or a malformed address.
    Host { message: String },
}

pub open spec fn operation_text(op: OverflowOperation) -> Seq<char> {
    match op {
        OverflowOperation::Add => "Add"@,
        OverflowOperation::Sub => "Sub"@,
        OverflowOperation::Mul => "Mul"@,
    }
}

/// The message of an error.
pub open spec fn std_error_text(e: StdError) -> Seq<char> {
    match e {
        StdError::Generic(msg) => "Generic error: "@ + msg@,
        StdError::NotFound(missing) => missing_text(missing) + " not found"@,
        StdError::Overflow(op) => "Overflow: Cannot "@ + operation_text(op)
            + " with given operands"@,
        StdError::ConversionOverflow => "Conversion error: "@,
        StdError::CommitTooSmall { usd_value } => "Generic error: Commit too small: $"@ + digits(
            usd_value as nat,
        ) + " USD (minimum $1 USD)"@,
        StdError::AmountMismatch { denom, expected, received } =>
            "Generic error: amount mismatch for denom '"@ + denom@ + "': expected "@ + digits(
            expected as nat,
        ) + ", but received "@ + digits(received as nat),
        StdError::AssetNotInPool { denom } => "Generic error: Asset "@ + denom@
            + " is not in the pool"@,
        StdError::UnexpectedCoin { denom } => "Generic error: Supplied coins contain "@ + denom@
            + " that is not in the input asset vector"@,
        StdError::MissingDenom { denom } => "Generic error: Must send reserve token '"@ + denom@
            + "'"@,
        StdError::BatchFailed { attempt, reason } =>
            "Generic error: Batch processing failed (attempt "@ + digits(attempt as nat) + "): "@
            + reason@,
        StdError::BatchAbandoned { failures, reason } =>
            "Generic error: Distribution batch read failed: "@ + reason@
            + ". Manual recovery needed after "@ + digits(failures as nat) + " failures"@,
        StdError::HopOffersItsAsk { hop, token } => "Generic error: hop "@ + digits(hop as nat)
            + " declares offer and ask as the same token: "@ + token@,
        StdError::OfferNotFromSender { offer, sender } => "Generic error: first hop offer cw20 ("@
            + offer@ + ") does not match sender ("@ + sender@ + ")"@,
        StdError::FundsDenomMismatch { funds, offer } => "Generic error: funds denom "@ + funds@
            + " does not match first hop offer denom "@ + offer@,
        StdError::UnknownReply { id } => "Generic error: unknown reply id: "@ + digits(id as nat),
        StdError::Host { message } => message@,
    }
}

impl StdError {
    /// The message of the error.
    pub fn text(&self) -> (r: String)
        ensures
            r@ == std_error_text(*self),
    {
        match self {
            StdError::Generic(msg) => "Generic error: ".to_string().concat(msg),
            StdError::NotFound(missing) => missing.text().concat(" not found"),
            StdError::Overflow(op) => {
                let op: &str = match op {
                    OverflowOperation::Add => "Add",
                    OverflowOperation::Sub => "Sub",
                    OverflowOperation::Mul => "Mul",
                };
                "Overflow: Cannot ".to_string().concat(op).concat(" with given operands")
            },
            StdError::ConversionOverflow => "Conversion error: ".to_string(),
            StdError::CommitTooSmall { usd_value } => "Generic error: Commit too small: $".to_string().concat(
                number(*usd_value).as_str(),
            ).concat(" USD (minimum $1 USD)"),
            StdError::AmountMismatch { denom, expected, received } =>
                "Generic error: amount mismatch for denom '".to_string().concat(
                denom.as_str(),
            ).concat("': expected ").concat(number(*expected).as_str()).concat(
                ", but received ",
            ).concat(number(*received).as_str()),
            StdError::AssetNotInPool { denom } => "Generic error: Asset ".to_string().concat(
                denom.as_str(),
            ).concat(" is not in the pool"),
            StdError::UnexpectedCoin { denom } =>
                "Generic error: Supplied coins contain ".to_string().concat(denom.as_str()).concat(
                " that is not in the input asset vector",
            ),
            StdError::MissingDenom { denom } =>
                "Generic error: Must send reserve token '".to_string().concat(denom.as_str()).concat(
                "'",
            ),
            StdError::BatchFailed { attempt, reason } =>
                "Generic error: Batch processing failed (attempt ".to_string().concat(
                number(*attempt as u128).as_str(),
            ).concat("): ").concat(reason.as_str()),
            StdError::BatchAbandoned { failures, reason } =>
                "Generic error: Distribution batch read failed: ".to_string().concat(
                reason.as_str(),
            ).concat(". Manual recovery needed after ").concat(
                number(*failures as u128).as_str(),
            ).concat(" failures"),
            StdError::HopOffersItsAsk { hop, token } => "Generic error: hop ".to_string().concat(
                number(*hop as u128).as_str(),
            ).concat(" declares offer and ask as the same token: ").concat(token.as_str()),
            StdError::OfferNotFromSender { offer, sender } =>
                "Generic error: first hop offer cw20 (".to_string().concat(offer.as_str()).concat(
                ") does not match sender (",
            ).concat(sender.as_str()).concat(")"),
            StdError::FundsDenomMismatch { funds, offer } =>
                "Generic error: funds denom ".to_string().concat(funds.as_str()).concat(
                " does not match first hop offer denom ",
            ).concat(offer.as_str()),
            StdError::UnknownReply { id } => "Generic error: unknown reply id: ".to_string().concat(
                number(*id as u128).as_str(),
            ),
            StdError::Host { message } => message.clone(),
        }
    }
}

} // verus!
