//! Failure modes of the service layer.

use vstd::prelude::*;

use std::io::ErrorKind;

use crate::record::Address;

verus! {

/// `std::io::ErrorKind`: its variants, as the standard library lists them.
#[verifier::external_type_specification]
pub struct ExErrorKind(ErrorKind);

/// A failure of the keyword layer, as plain values.
#[derive(Debug, PartialEq, Eq)]
pub struct KeywordError {
    /// The key that was refused because the directory already holds it, where
    /// that is what went wrong.
    pub duplicate: Option<Address>,
    /// What the keyword layer says of the failure.
    pub message: String,
}

/// A failure of the PIR layer: what that layer says of it.
#[derive(Debug, PartialEq, Eq)]
pub struct PirError {
    pub message: String,
}

/// A failure while reading or writing the wire form of a keyword directory, a
/// query or a response.
#[derive(Debug, PartialEq, Eq)]
pub struct WireError {
    pub kind: ErrorKind,
    pub message: String,
}

/// Failure modes of the ETH PIR service layer.
#[derive(Debug, PartialEq, Eq)]
pub enum EthPirError {
    /// The decrypted record's address does not match the queried address.
    NotInSet,
    /// The serving mutex was poisoned by a panic in another thread.
    ServerPoisoned,
    /// Forwarded from the keyword layer.
    Keyword(KeywordError),
    /// Forwarded from the underlying PIR layer.
    Pir(PirError),
    /// Forwarded from wire I/O.
    Io { kind: ErrorKind, message: String },
}

impl Clone for KeywordError {
    fn clone(&self) -> (copy: Self)
        ensures
            copy == *self,
    {
        KeywordError { duplicate: self.duplicate, message: self.message.clone() }
    }
}

impl Clone for PirError {
    fn clone(&self) -> (copy: Self)
        ensures
            copy == *self,
    {
        PirError { message: self.message.clone() }
    }
}

impl Clone for WireError {
    fn clone(&self) -> (copy: Self)
        ensures
            copy == *self,
    {
        WireError { kind: self.kind, message: self.message.clone() }
    }
}

impl Clone for EthPirError {
    fn clone(&self) -> (copy: Self)
        ensures
            copy == *self,
    {
        match self {
            EthPirError::NotInSet => EthPirError::NotInSet,
            EthPirError::ServerPoisoned => EthPirError::ServerPoisoned,
            EthPirError::Keyword(e) => EthPirError::Keyword(e.clone()),
            EthPirError::Pir(e) => EthPirError::Pir(e.clone()),
            EthPirError::Io { kind, message } => EthPirError::Io {
                kind: *kind,
                message: message.clone(),
            },
        }
    }
}

impl From<KeywordError> for EthPirError {
    fn from(e: KeywordError) -> (error: Self) {
        EthPirError::Keyword(e)
    }
}

impl vstd::std_specs::convert::FromSpecImpl<KeywordError> for EthPirError {
    open spec fn obeys_from_spec() -> bool {
        true
    }

    open spec fn from_spec(e: KeywordError) -> Self {
        EthPirError::Keyword(e)
    }
}

impl From<PirError> for EthPirError {
    fn from(e: PirError) -> (error: Self) {
        EthPirError::Pir(e)
    }
}

impl vstd::std_specs::convert::FromSpecImpl<PirError> for EthPirError {
    open spec fn obeys_from_spec() -> bool {
        true
    }

    open spec fn from_spec(e: PirError) -> Self {
        EthPirError::Pir(e)
    }
}

impl From<WireError> for EthPirError {
    fn from(e: WireError) -> (error: Self) {
        EthPirError::Io { kind: e.kind, message: e.message }
    }
}

impl vstd::std_specs::convert::FromSpecImpl<WireError> for EthPirError {
    open spec fn obeys_from_spec() -> bool {
        true
    }

    open spec fn from_spec(e: WireError) -> Self {
        EthPirError::Io { kind: e.kind, message: e.message }
    }
}

impl EthPirError {
    /// The sentence a user reads.
    pub open spec fn text(self) -> Seq<char> {
        match self {
            EthPirError::NotInSet => "address not in the served set"@,
            EthPirError::ServerPoisoned => "serving server mutex was poisoned"@,
            EthPirError::Keyword(e) => "keyword layer: "@ + e.message@,
            EthPirError::Pir(e) => "PIR layer: "@ + e.message@,
            EthPirError::Io { kind: _, message } => "keyword wire I/O: "@ + message@,
        }
    }

    /// The I/O kind a failure is reported under: its own if it has one, invalid
    /// data for what a wrong address or directory causes, other for the rest.
    pub open spec fn io_kind(self) -> ErrorKind {
        match self {
            EthPirError::Io { kind, message: _ } => kind,
            EthPirError::NotInSet => ErrorKind::InvalidData,
            EthPirError::Keyword(_) => ErrorKind::InvalidData,
            EthPirError::Pir(_) => ErrorKind::Other,
            EthPirError::ServerPoisoned => ErrorKind::Other,
        }
    }

    /// Describes the failure in a sentence.
    pub fn to_text(&self) -> (text: String)
        ensures
            text@ == self.text(),
    {
        match self {
            EthPirError::NotInSet => String::from_str("address not in the served set"),
            EthPirError::ServerPoisoned => String::from_str("serving server mutex was poisoned"),
            EthPirError::Keyword(e) => String::from_str("keyword layer: ").concat(
                e.message.as_str(),
            ),
            EthPirError::Pir(e) => String::from_str("PIR layer: ").concat(e.message.as_str()),
            EthPirError::Io { kind: _, message } => String::from_str("keyword wire I/O: ").concat(
                message.as_str(),
            ),
        }
    }
}

/// A service error as those see it who expect an I/O error: the kind it is reported
/// under, and the error itself.
#[derive(Debug, PartialEq, Eq)]
pub struct EthIoError {
    pub kind: ErrorKind,
    pub error: EthPirError,
}

impl EthIoError {
    /// Describes the failure in a sentence.
    pub fn to_text(&self) -> (text: String)
        ensures
            text@ == self.error.text(),
    {
        self.error.to_text()
    }
}

/// The I/O error that stands for a service error: its kind, with the error kept as
/// it is.
pub fn eth_error_to_io(error: EthPirError) -> (io: EthIoError)
    ensures
        io == (EthIoError { kind: error.io_kind(), error }),
{
    let kind = match &error {
        EthPirError::Io { kind, message: _ } => *kind,
        EthPirError::NotInSet => ErrorKind::InvalidData,
        EthPirError::Keyword(_) => ErrorKind::InvalidData,
        EthPirError::Pir(_) => ErrorKind::Other,
        EthPirError::ServerPoisoned => ErrorKind::Other,
    };
    EthIoError { kind, error }
}

/// A forwarded failure is described by a label that names the layer alone, and then
/// by exactly what the layer said.
pub proof fn law_text_ends_with_what_the_layer_said(
    one: String,
    other: String,
    duplicate: Option<Address>,
    kind: ErrorKind,
)
    ensures
        ({
            let a = EthPirError::Keyword(KeywordError { duplicate, message: one }).text();
            let b = EthPirError::Keyword(KeywordError { duplicate: None, message: other }).text();
            &&& a.len() - one@.len() == b.len() - other@.len()
            &&& a.skip(a.len() - one@.len()) == one@
            &&& a.take(a.len() - one@.len()) == b.take(b.len() - other@.len())
        }),
        ({
            let a = EthPirError::Pir(PirError { message: one }).text();
            let b = EthPirError::Pir(PirError { message: other }).text();
            &&& a.len() - one@.len() == b.len() - other@.len()
            &&& a.skip(a.len() - one@.len()) == one@
            &&& a.take(a.len() - one@.len()) == b.take(b.len() - other@.len())
        }),
        ({
            let a = (EthPirError::Io { kind, message: one }).text();
            let b = (EthPirError::Io { kind: ErrorKind::Other, message: other }).text();
            &&& a.len() - one@.len() == b.len() - other@.len()
            &&& a.skip(a.len() - one@.len()) == one@
            &&& a.take(a.len() - one@.len()) == b.take(b.len() - other@.len())
        }),
{
    let a = EthPirError::Keyword(KeywordError { duplicate, message: one }).text();
    let b = EthPirError::Keyword(KeywordError { duplicate: None, message: other }).text();
    assert(a.skip(a.len() - one@.len()) =~= one@);
    assert(a.take(a.len() - one@.len()) =~= b.take(b.len() - other@.len()));
    let a = EthPirError::Pir(PirError { message: one }).text();
    let b = EthPirError::Pir(PirError { message: other }).text();
    assert(a.skip(a.len() - one@.len()) =~= one@);
    assert(a.take(a.len() - one@.len()) =~= b.take(b.len() - other@.len()));
    let a = (EthPirError::Io { kind, message: one }).text();
    let b = (EthPirError::Io { kind: ErrorKind::Other, message: other }).text();
    assert(a.skip(a.len() - one@.len()) =~= one@);
    assert(a.take(a.len() - one@.len()) =~= b.take(b.len() - other@.len()));
}

/// A wire failure is reported under the kind it came with. What else was wrong with
/// the data, an address or a directory, is invalid data, whichever it was; what went
/// wrong in the service is neither.
pub proof fn law_kind_tells_data_from_service(
    kind: ErrorKind,
    message: String,
    keyword: KeywordError,
    pir: PirError,
)
    ensures
        (EthPirError::Io { kind, message }).io_kind() == kind,
        EthPirError::NotInSet.io_kind() == ErrorKind::InvalidData,
        EthPirError::Keyword(keyword).io_kind() == ErrorKind::InvalidData,
        EthPirError::ServerPoisoned.io_kind() == ErrorKind::Other,
        EthPirError::Pir(pir).io_kind() == ErrorKind::Other,
{
}

} // verus!
