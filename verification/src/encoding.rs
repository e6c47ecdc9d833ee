//! Base64, as the control socket carries bytes, and quoted text, as error
//! messages show it.

use base64::Engine;
use vstd::prelude::*;

use crate::text;

verus! {

/// Why text is no base64.
#[derive(Debug, Clone, Copy, PartialEq, Eq, Structural)]
pub enum Base64Error {
    /// The byte at an offset is no symbol.
    InvalidByte(usize, u8),
    /// The number of symbols cannot be.
    InvalidLength(usize),
    /// The last symbol has bits that stand for nothing.
    InvalidLastSymbol(usize, u8),
    InvalidPadding,
}

impl Base64Error {
    pub open spec fn text(self) -> Seq<char> {
        match self {
            Base64Error::InvalidByte(index, byte) => "Invalid symbol "@ + text::decimal(
                byte as nat,
            ) + ", offset "@ + text::decimal(index as nat) + "."@,
            Base64Error::InvalidLength(len) => "Invalid input length: "@ + text::decimal(
                len as nat,
            ),
            Base64Error::InvalidLastSymbol(index, byte) => "Invalid last symbol "@ + text::decimal(
                byte as nat,
            ) + ", offset "@ + text::decimal(index as nat) + "."@,
            Base64Error::InvalidPadding => "Invalid padding"@,
        }
    }

    pub fn message(&self) -> (message: String)
        ensures
            message@ == self.text(),
    {
        match self {
            Base64Error::InvalidByte(index, byte) => symbol_message(
                "Invalid symbol ",
                *index,
                *byte,
            ),
            Base64Error::InvalidLength(len) => text::with_number(
                "Invalid input length: ",
                *len as u64,
            ),
            Base64Error::InvalidLastSymbol(index, byte) => symbol_message(
                "Invalid last symbol ",
                *index,
                *byte,
            ),
            Base64Error::InvalidPadding => "Invalid padding".to_owned(),
        }
    }
}

fn symbol_message(what: &str, index: usize, byte: u8) -> (message: String)
    ensures
        message@ == what@ + text::decimal(byte as nat) + ", offset "@ + text::decimal(index as nat)
            + "."@,
{
    let symbol = text::with_number(what, byte as u64);
    let place = text::with_number(", offset ", index as u64);
    let message = text::concat(text::concat(symbol.as_str(), place.as_str()).as_str(), ".");
    assert(message@ =~= what@ + text::decimal(byte as nat) + ", offset "@ + text::decimal(
        index as nat,
    ) + "."@);
    message
}

/// What `STANDARD.encode` of the crate `base64` gives for `bytes`.
pub uninterp spec fn encoded(bytes: Seq<u8>) -> Seq<char>;

/// What `STANDARD.decode` of the crate `base64` gives for `text`.
pub uninterp spec fn decoded(text: Seq<char>) -> Result<Seq<u8>, Base64Error>;

/// Decoding `text` gives `bytes`.
pub open spec fn decodes_to(text: Seq<char>, bytes: Seq<u8>) -> bool {
    decoded(text) == Ok::<Seq<u8>, Base64Error>(bytes)
}

/// `base64::engine::general_purpose::STANDARD.encode`. It is claimed that the
/// text depends on the bytes alone, and that decoding it gives them back.
/// Nothing more is said of the text. The call panics when the length of the
/// text overflows, which a quarter of the address space rules out.
#[verifier::external_body]
pub(crate) fn encode(bytes: &[u8]) -> (text: String)
    requires
        bytes@.len() <= usize::MAX / 4,
    ensures
        text@ == encoded(bytes@),
        decodes_to(text@, bytes@),
{
    base64::engine::general_purpose::STANDARD.encode(bytes)
}

/// `base64::engine::general_purpose::STANDARD.decode`, with each error as the
/// variant of the same name. It is claimed that the outcome depends on the
/// text alone.
#[verifier::external_body]
pub(crate) fn decode(text: &str) -> (bytes: Result<Vec<u8>, Base64Error>)
    ensures
        match (bytes, decoded(text@)) {
            (Ok(bytes), Ok(raw)) => bytes@ == raw,
            (Err(error), Err(fault)) => error == fault,
            _ => false,
        },
{
    match base64::engine::general_purpose::STANDARD.decode(text) {
        Ok(bytes) => Ok(bytes),
        Err(base64::DecodeError::InvalidByte(i, b)) => Err(Base64Error::InvalidByte(i, b)),
        Err(base64::DecodeError::InvalidLength(n)) => Err(Base64Error::InvalidLength(n)),
        Err(base64::DecodeError::InvalidLastSymbol(i, b)) => Err(
            Base64Error::InvalidLastSymbol(i, b),
        ),
        Err(base64::DecodeError::InvalidPadding) => Err(Base64Error::InvalidPadding),
    }
}

/// What formatting `text` with `{:?}` gives.
pub uninterp spec fn quoted(text: Seq<char>) -> Seq<char>;

/// `format!("{:?}", text)` of the standard library. It is claimed that the
/// outcome depends on the text alone.
#[verifier::external_body]
pub(crate) fn quote(text: &str) -> (shown: String)
    ensures
        shown@ == quoted(text@),
{
    format!("{:?}", text)
}

} // verus!
