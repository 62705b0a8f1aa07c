//! Failures that the configuration model reports to its callers.
use vstd::prelude::*;

verus! {

/// The four classes of failure.
#[derive(Clone, Copy, PartialEq, Eq, Structural, Debug)]
pub enum ErrorKind {
    /// A connection of that id is not registered.
    NotFound,
    /// A value written to a strict field is malformed.
    Validation,
    /// A wireless field was asked of a connection that is not wireless.
    WrongVariant,
    /// The queue of intents no longer accepts anything.
    BackendUnavailable,
}

/// A failure, with the input that caused it.
#[derive(Debug, PartialEq, Eq)]
pub enum NetworkStateError {
    /// No connection of this id is registered.
    UnknownConnection(String),
    /// The text is no address of the facet's family.
    InvalidIpAddr(String),
    /// The text names no IP configuration method.
    InvalidIpMethod(String),
    /// The text names no wireless mode.
    InvalidWirelessMode(String),
    /// The text names no security protocol.
    InvalidSecurityProtocol(String),
    /// The number stands for no device type.
    InvalidDeviceType(u8),
    /// The connection of this id is not a wireless one.
    NotWireless(String),
    /// The queue of intents is closed.
    BackendUnavailable,
}

/// A failure as a mathematical value.
pub enum ErrorView {
    UnknownConnection(Seq<char>),
    InvalidIpAddr(Seq<char>),
    InvalidIpMethod(Seq<char>),
    InvalidWirelessMode(Seq<char>),
    InvalidSecurityProtocol(Seq<char>),
    InvalidDeviceType(u8),
    NotWireless(Seq<char>),
    BackendUnavailable,
}

impl ErrorView {
    /// The class that a failure belongs to.
    pub open spec fn kind(self) -> ErrorKind {
        match self {
            ErrorView::UnknownConnection(_) => ErrorKind::NotFound,
            ErrorView::InvalidIpAddr(_) => ErrorKind::Validation,
            ErrorView::InvalidIpMethod(_) => ErrorKind::Validation,
            ErrorView::InvalidWirelessMode(_) => ErrorKind::Validation,
            ErrorView::InvalidSecurityProtocol(_) => ErrorKind::Validation,
            ErrorView::InvalidDeviceType(_) => ErrorKind::Validation,
            ErrorView::NotWireless(_) => ErrorKind::WrongVariant,
            ErrorView::BackendUnavailable => ErrorKind::BackendUnavailable,
        }
    }

    /// The words that open the message of a failure.
    pub open spec fn headline(self) -> Seq<char> {
        match self {
            ErrorView::UnknownConnection(_) => "Unknown connection: "@,
            ErrorView::InvalidIpAddr(_) => "Invalid IP address: "@,
            ErrorView::InvalidIpMethod(_) => "Invalid IP method: "@,
            ErrorView::InvalidWirelessMode(_) => "Invalid wireless mode: "@,
            ErrorView::InvalidSecurityProtocol(_) => "Invalid security protocol: "@,
            ErrorView::InvalidDeviceType(_) => "Invalid device type: "@,
            ErrorView::NotWireless(_) => "Not a wireless connection: "@,
            ErrorView::BackendUnavailable => "The network backend is not available"@,
        }
    }

    /// The input that caused a failure, as it is shown in the message.
    pub open spec fn subject(self) -> Seq<char> {
        match self {
            ErrorView::UnknownConnection(s) => s,
            ErrorView::InvalidIpAddr(s) => s,
            ErrorView::InvalidIpMethod(s) => s,
            ErrorView::InvalidWirelessMode(s) => s,
            ErrorView::InvalidSecurityProtocol(s) => s,
            ErrorView::InvalidDeviceType(v) => crate::text::decimal_text(v as nat),
            ErrorView::NotWireless(s) => s,
            ErrorView::BackendUnavailable => Seq::<char>::empty(),
        }
    }
}

impl View for NetworkStateError {
    type V = ErrorView;

    open spec fn view(&self) -> ErrorView {
        match self {
            NetworkStateError::UnknownConnection(s) => ErrorView::UnknownConnection(s@),
            NetworkStateError::InvalidIpAddr(s) => ErrorView::InvalidIpAddr(s@),
            NetworkStateError::InvalidIpMethod(s) => ErrorView::InvalidIpMethod(s@),
            NetworkStateError::InvalidWirelessMode(s) => ErrorView::InvalidWirelessMode(s@),
            NetworkStateError::InvalidSecurityProtocol(s) => ErrorView::InvalidSecurityProtocol(
                s@,
            ),
            NetworkStateError::InvalidDeviceType(v) => ErrorView::InvalidDeviceType(*v),
            NetworkStateError::NotWireless(s) => ErrorView::NotWireless(s@),
            NetworkStateError::BackendUnavailable => ErrorView::BackendUnavailable,
        }
    }
}

impl NetworkStateError {
    /// The class of the failure.
    pub fn kind(&self) -> (k: ErrorKind)
        ensures
            k == self@.kind(),
    {
        match self {
            NetworkStateError::UnknownConnection(_) => ErrorKind::NotFound,
            NetworkStateError::InvalidIpAddr(_) => ErrorKind::Validation,
            NetworkStateError::InvalidIpMethod(_) => ErrorKind::Validation,
            NetworkStateError::InvalidWirelessMode(_) => ErrorKind::Validation,
            NetworkStateError::InvalidSecurityProtocol(_) => ErrorKind::Validation,
            NetworkStateError::InvalidDeviceType(_) => ErrorKind::Validation,
            NetworkStateError::NotWireless(_) => ErrorKind::WrongVariant,
            NetworkStateError::BackendUnavailable => ErrorKind::BackendUnavailable,
        }
    }

    /// The message of the failure: its headline, then the input that caused it.
    pub fn to_string(&self) -> (r: String)
        ensures
            r@ == self@.headline() + self@.subject(),
    {
        let mut out = String::new();
        match self {
            NetworkStateError::UnknownConnection(s) => {
                out.append("Unknown connection: ");
                out.append(s.as_str());
            },
            NetworkStateError::InvalidIpAddr(s) => {
                out.append("Invalid IP address: ");
                out.append(s.as_str());
            },
            NetworkStateError::InvalidIpMethod(s) => {
                out.append("Invalid IP method: ");
                out.append(s.as_str());
            },
            NetworkStateError::InvalidWirelessMode(s) => {
                out.append("Invalid wireless mode: ");
                out.append(s.as_str());
            },
            NetworkStateError::InvalidSecurityProtocol(s) => {
                out.append("Invalid security protocol: ");
                out.append(s.as_str());
            },
            NetworkStateError::InvalidDeviceType(v) => {
                out.append("Invalid device type: ");
                crate::text::push_decimal(&mut out, *v as u32);
            },
            NetworkStateError::NotWireless(s) => {
                out.append("Not a wireless connection: ");
                out.append(s.as_str());
            },
            NetworkStateError::BackendUnavailable => {
                out.append("The network backend is not available");
            },
        }
        assert(out@ =~= self@.headline() + self@.subject());
        out
    }
}

} // verus!
