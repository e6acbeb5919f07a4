//! The error taxonomy of the codec.

use crate::common::types::Protocol;
use vstd::prelude::*;

verus! {

/// Errors returned by encoders and decoders.
#[derive(Debug, Clone, PartialEq, Eq)]
pub enum Error {
    /// The first byte of a packet is not a legal type and flags combination.
    InvalidHeader,
    /// A variable byte integer is out of range or longer than four bytes.
    InvalidVarByteInt,
    /// The remaining length does not agree with the packet's content.
    InvalidRemainingLength,
    /// The protocol name and level pair is not a known one.
    InvalidProtocol(String, u8),
    /// The protocol is a known one, but not one this decoder handles.
    UnexpectedProtocol(Protocol),
    /// Reserved or inconsistent connect flags.
    InvalidConnectFlags(u8),
    /// Reserved connack flags.
    InvalidConnackFlags(u8),
    /// Unknown connect return code.
    InvalidConnectReturnCode(u8),
    /// A quality of service value above 2.
    InvalidQos(u8),
    /// A packet identifier of zero.
    InvalidPid,
    /// A string that is not valid UTF-8.
    InvalidString,
    /// A topic name or filter that breaks the topic grammar.
    InvalidTopic,
    /// An empty topic name or filter.
    EmptyTopic,
    /// A subscribe or unsubscribe packet without any topic.
    EmptySubscription,
    /// A length-prefixed field longer than 65535 bytes.
    PayloadTooLong,
    /// The input ended before the value was complete.
    UnexpectedEof,
}

/// Mathematical model of [`Error`].
pub enum ErrorView {
    InvalidHeader,
    InvalidVarByteInt,
    InvalidRemainingLength,
    InvalidProtocol(Seq<char>, u8),
    UnexpectedProtocol(Protocol),
    InvalidConnectFlags(u8),
    InvalidConnackFlags(u8),
    InvalidConnectReturnCode(u8),
    InvalidQos(u8),
    InvalidPid,
    InvalidString,
    InvalidTopic,
    EmptyTopic,
    EmptySubscription,
    PayloadTooLong,
    UnexpectedEof,
}

impl View for Error {
    type V = ErrorView;

    open spec fn view(&self) -> ErrorView {
        match *self {
            Error::InvalidHeader => ErrorView::InvalidHeader,
            Error::InvalidVarByteInt => ErrorView::InvalidVarByteInt,
            Error::InvalidRemainingLength => ErrorView::InvalidRemainingLength,
            Error::InvalidProtocol(name, level) => ErrorView::InvalidProtocol(name@, level),
            Error::UnexpectedProtocol(p) => ErrorView::UnexpectedProtocol(p),
            Error::InvalidConnectFlags(b) => ErrorView::InvalidConnectFlags(b),
            Error::InvalidConnackFlags(b) => ErrorView::InvalidConnackFlags(b),
            Error::InvalidConnectReturnCode(b) => ErrorView::InvalidConnectReturnCode(b),
            Error::InvalidQos(b) => ErrorView::InvalidQos(b),
            Error::InvalidPid => ErrorView::InvalidPid,
            Error::InvalidString => ErrorView::InvalidString,
            Error::InvalidTopic => ErrorView::InvalidTopic,
            Error::EmptyTopic => ErrorView::EmptyTopic,
            Error::EmptySubscription => ErrorView::EmptySubscription,
            Error::PayloadTooLong => ErrorView::PayloadTooLong,
            Error::UnexpectedEof => ErrorView::UnexpectedEof,
        }
    }
}

impl Error {
    /// A copy of the error.
    pub fn duplicate(&self) -> (e: Error)
        ensures
            e@ == self@,
    {
        match self {
            Error::InvalidHeader => Error::InvalidHeader,
            Error::InvalidVarByteInt => Error::InvalidVarByteInt,
            Error::InvalidRemainingLength => Error::InvalidRemainingLength,
            Error::InvalidProtocol(name, level) => Error::InvalidProtocol(name.clone(), *level),
            Error::UnexpectedProtocol(p) => Error::UnexpectedProtocol(*p),
            Error::InvalidConnectFlags(b) => Error::InvalidConnectFlags(*b),
            Error::InvalidConnackFlags(b) => Error::InvalidConnackFlags(*b),
            Error::InvalidConnectReturnCode(b) => Error::InvalidConnectReturnCode(*b),
            Error::InvalidQos(b) => Error::InvalidQos(*b),
            Error::InvalidPid => Error::InvalidPid,
            Error::InvalidString => Error::InvalidString,
            Error::InvalidTopic => Error::InvalidTopic,
            Error::EmptyTopic => Error::EmptyTopic,
            Error::EmptySubscription => Error::EmptySubscription,
            Error::PayloadTooLong => Error::PayloadTooLong,
            Error::UnexpectedEof => Error::UnexpectedEof,
        }
    }

    /// Whether the error says that the input ended too early.
    pub fn is_eof(&self) -> (b: bool)
        ensures
            b == (self@ == ErrorView::UnexpectedEof),
    {
        match self {
            Error::UnexpectedEof => true,
            _ => false,
        }
    }
}

/// A reader's outcome `res`, with the offset `off` it left, agrees with the
/// parser's outcome `model`: the same value and offset, or the same error.
pub open spec fn read_agrees<T: View>(
    res: Result<T, Error>,
    off: usize,
    model: Result<(T::V, int), ErrorView>,
) -> bool {
    match model {
        Ok((v, n)) => res is Ok && res->Ok_0@ == v && off == n,
        Err(e) => res is Err && res->Err_0@ == e,
    }
}

/// A decoder's outcome agrees with the parser's outcome.
pub open spec fn agrees<T: View>(res: Result<T, Error>, model: Result<T::V, ErrorView>) -> bool {
    match model {
        Ok(v) => res is Ok && res->Ok_0@ == v,
        Err(e) => res is Err && res->Err_0@ == e,
    }
}

} // verus!
