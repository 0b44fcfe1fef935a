//! What can go wrong: failures of an exchange with the modem, and failures to
//! decode a value that it sent.

use crate::text::{decimal, push_decimal};
use vstd::prelude::*;
use vstd::string::*;

verus! {

/// A failed exchange with the modem.
#[derive(Debug)]
pub enum Error {
    /// The modem's anti-forgery cookie is not in the session store, as it is
    /// before the first login.
    NoSessionToken,
    /// The modem refused the password.
    IncorrectPassword,
    /// The modem answered a login with something that is neither a success
    /// nor a known refusal.
    UnexpectedResponse(String),
    /// The session is gone, and stayed gone after the one renewal allowed.
    NotAuthorized,
    /// Somebody else holds the modem's only session.
    AccessDenied,
    /// The modem answered a login by sending the client elsewhere.
    UnexpectedRedirect(String),
    /// The modem rejected a change, with this explanation.
    Remote(String),
    /// The modem's address does not make a URL.
    URLParseError(url::ParseError),
    /// A header holds bytes that are no visible ASCII.
    InvalidHeaderValue(reqwest::header::ToStrError),
}

/// An [`Error`] with its texts as sequences of characters.
pub enum ErrorView {
    NoSessionToken,
    IncorrectPassword,
    UnexpectedResponse(Seq<char>),
    NotAuthorized,
    AccessDenied,
    UnexpectedRedirect(Seq<char>),
    Remote(Seq<char>),
    URLParseError(url::ParseError),
    InvalidHeaderValue(reqwest::header::ToStrError),
}

impl View for Error {
    type V = ErrorView;

    open spec fn view(&self) -> ErrorView {
        match *self {
            Error::NoSessionToken => ErrorView::NoSessionToken,
            Error::IncorrectPassword => ErrorView::IncorrectPassword,
            Error::UnexpectedResponse(body) => ErrorView::UnexpectedResponse(body@),
            Error::NotAuthorized => ErrorView::NotAuthorized,
            Error::AccessDenied => ErrorView::AccessDenied,
            Error::UnexpectedRedirect(location) => ErrorView::UnexpectedRedirect(location@),
            Error::Remote(body) => ErrorView::Remote(body@),
            Error::URLParseError(e) => ErrorView::URLParseError(e),
            Error::InvalidHeaderValue(e) => ErrorView::InvalidHeaderValue(e),
        }
    }
}

/// The four parts of a lease time, in the order in which the modem writes
/// them.
#[derive(Clone, Copy, Debug, PartialEq, Eq, Structural)]
pub enum LeaseField {
    Days,
    Hours,
    Mins,
    Secs,
}

/// A value of the modem's dialect that does not decode.
#[derive(Debug)]
pub enum DecodeError {
    /// A flag that is neither 0 nor 1.
    InvalidBool(u8),
    /// A protocol number that is not 1, 2 or 3.
    InvalidProtocol(u8),
    /// A lease time that ends before this part.
    MissingLeaseField(LeaseField),
    /// A lease time whose part, given here as it was sent, is no number that
    /// fits in 32 bits.
    InvalidLeaseField(LeaseField, String),
}

/// A [`DecodeError`] with its text as a sequence of characters.
pub enum DecodeErrorView {
    InvalidBool(u8),
    InvalidProtocol(u8),
    MissingLeaseField(LeaseField),
    InvalidLeaseField(LeaseField, Seq<char>),
}

impl View for DecodeError {
    type V = DecodeErrorView;

    open spec fn view(&self) -> DecodeErrorView {
        match *self {
            DecodeError::InvalidBool(value) => DecodeErrorView::InvalidBool(value),
            DecodeError::InvalidProtocol(value) => DecodeErrorView::InvalidProtocol(value),
            DecodeError::MissingLeaseField(field) => DecodeErrorView::MissingLeaseField(field),
            DecodeError::InvalidLeaseField(field, raw) => DecodeErrorView::InvalidLeaseField(
                field,
                raw@,
            ),
        }
    }
}

/// The name of a part of a lease time.
pub open spec fn lease_field_name(field: LeaseField) -> Seq<char> {
    match field {
        LeaseField::Days => "days"@,
        LeaseField::Hours => "hours"@,
        LeaseField::Mins => "mins"@,
        LeaseField::Secs => "secs"@,
    }
}

impl LeaseField {
    /// The name of the part.
    pub fn name(&self) -> (name: &'static str)
        ensures
            name@ == lease_field_name(*self),
    {
        match self {
            LeaseField::Days => "days",
            LeaseField::Hours => "hours",
            LeaseField::Mins => "mins",
            LeaseField::Secs => "secs",
        }
    }
}

/// What a decode error says of itself: what was expected, and the value that
/// was sent instead.
pub open spec fn decode_message(e: DecodeErrorView) -> Seq<char> {
    match e {
        DecodeErrorView::InvalidBool(value) => "invalid value: integer `"@ + decimal(value as nat)
            + "`, expected zero or one"@,
        DecodeErrorView::InvalidProtocol(value) => "protocol "@ + decimal(value as nat)
            + " not in range 1..=3"@,
        DecodeErrorView::MissingLeaseField(field) => "no "@ + lease_field_name(field)
            + " field in lease time"@,
        DecodeErrorView::InvalidLeaseField(field, raw) => "invalid "@ + lease_field_name(field)
            + " field in lease time: "@ + raw,
    }
}

impl DecodeError {
    /// The error in words.
    pub fn message(&self) -> (message: String)
        ensures
            message@ == decode_message(self@),
    {
        match self {
            DecodeError::InvalidBool(value) => {
                let mut message = String::from_str("invalid value: integer `");
                push_decimal(&mut message, *value as u64);
                message.append("`, expected zero or one");
                message
            },
            DecodeError::InvalidProtocol(value) => {
                let mut message = String::from_str("protocol ");
                push_decimal(&mut message, *value as u64);
                message.append(" not in range 1..=3");
                message
            },
            DecodeError::MissingLeaseField(field) => {
                let mut message = String::from_str("no ");
                message.append(field.name());
                message.append(" field in lease time");
                message
            },
            DecodeError::InvalidLeaseField(field, raw) => {
                let mut message = String::from_str("invalid ");
                message.append(field.name());
                message.append(" field in lease time: ");
                message.append(raw.as_str());
                message
            },
        }
    }
}

} // verus!
