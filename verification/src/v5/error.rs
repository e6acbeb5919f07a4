//! The errors of the 5.0 codec.

use crate::common::error::{Error, ErrorView};
use crate::v5::header::PacketType;
use crate::v5::properties::PropertyId;
use vstd::prelude::*;

verus! {

/// Errors returned by the 5.0 encoders and decoders.
#[derive(Debug, Clone, PartialEq, Eq)]
pub enum ErrorV5 {
    /// An error that both protocol versions know.
    Common(Error),
    /// A property that the packet type does not allow, or an unknown one.
    InvalidPropertyId(PacketType, u8),
    /// A property that may appear once appears again.
    DuplicatedProperty(PropertyId),
    /// A reason code outside the set of the packet type.
    InvalidReasonCode(PacketType, u8),
    /// Subscription options with a reserved bit set or retain handling 3.
    InvalidSubscriptionOptions(u8),
    /// A payload announced as UTF-8 that is not.
    InvalidPayloadFormat,
    /// A property whose value is outside its domain.
    ProtocolError(PropertyId),
}

/// Mathematical model of [`ErrorV5`].
pub enum ErrorV5View {
    Common(ErrorView),
    InvalidPropertyId(PacketType, u8),
    DuplicatedProperty(PropertyId),
    InvalidReasonCode(PacketType, u8),
    InvalidSubscriptionOptions(u8),
    InvalidPayloadFormat,
    ProtocolError(PropertyId),
}

impl View for ErrorV5 {
    type V = ErrorV5View;

    open spec fn view(&self) -> ErrorV5View {
        match *self {
            ErrorV5::Common(e) => ErrorV5View::Common(e@),
            ErrorV5::InvalidPropertyId(t, id) => ErrorV5View::InvalidPropertyId(t, id),
            ErrorV5::DuplicatedProperty(id) => ErrorV5View::DuplicatedProperty(id),
            ErrorV5::InvalidReasonCode(t, b) => ErrorV5View::InvalidReasonCode(t, b),
            ErrorV5::InvalidSubscriptionOptions(b) => ErrorV5View::InvalidSubscriptionOptions(b),
            ErrorV5::InvalidPayloadFormat => ErrorV5View::InvalidPayloadFormat,
            ErrorV5::ProtocolError(id) => ErrorV5View::ProtocolError(id),
        }
    }
}

impl ErrorV5 {
    /// A copy of the error.
    pub fn duplicate(&self) -> (e: ErrorV5)
        ensures
            e@ == self@,
    {
        match self {
            ErrorV5::Common(e) => ErrorV5::Common(e.duplicate()),
            ErrorV5::InvalidPropertyId(t, id) => ErrorV5::InvalidPropertyId(*t, *id),
            ErrorV5::DuplicatedProperty(id) => ErrorV5::DuplicatedProperty(*id),
            ErrorV5::InvalidReasonCode(t, b) => ErrorV5::InvalidReasonCode(*t, *b),
            ErrorV5::InvalidSubscriptionOptions(b) => ErrorV5::InvalidSubscriptionOptions(*b),
            ErrorV5::InvalidPayloadFormat => ErrorV5::InvalidPayloadFormat,
            ErrorV5::ProtocolError(id) => ErrorV5::ProtocolError(*id),
        }
    }

    /// Whether the error says that the input ended too early.
    pub fn is_eof(&self) -> (b: bool)
        ensures
            b == (self@ == ErrorV5View::Common(ErrorView::UnexpectedEof)),
    {
        match self {
            ErrorV5::Common(e) => e.is_eof(),
            _ => false,
        }
    }
}

/// A common parser's outcome as an outcome of the 5.0 codec.
pub open spec fn spec_lift<T>(r: Result<T, ErrorView>) -> Result<T, ErrorV5View> {
    match r {
        Ok(v) => Ok(v),
        Err(e) => Err(ErrorV5View::Common(e)),
    }
}

/// A common reader's outcome as an outcome of the 5.0 codec.
pub fn lift<T>(r: Result<T, Error>) -> (res: Result<T, ErrorV5>)
    ensures
        match r {
            Ok(v) => res == Ok::<T, ErrorV5>(v),
            Err(e) => res == Err::<T, ErrorV5>(ErrorV5::Common(e)),
        },
{
    match r {
        Ok(v) => Ok(v),
        Err(e) => Err(ErrorV5::Common(e)),
    }
}

/// A reader's outcome `res`, with the offset `off` it left, agrees with the
/// parser's outcome `model`: the same value and offset, or the same error.
pub open spec fn read_agrees5<T: View>(
    res: Result<T, ErrorV5>,
    off: usize,
    model: Result<(T::V, int), ErrorV5View>,
) -> bool {
    match model {
        Ok((v, n)) => res is Ok && res->Ok_0@ == v && off == n,
        Err(e) => res is Err && res->Err_0@ == e,
    }
}

/// A decoder's outcome agrees with the parser's outcome.
pub open spec fn agrees5<T: View>(res: Result<T, ErrorV5>, model: Result<T::V, ErrorV5View>) -> bool {
    match model {
        Ok(v) => res is Ok && res->Ok_0@ == v,
        Err(e) => res is Err && res->Err_0@ == e,
    }
}

} // verus!
