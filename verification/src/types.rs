//! The small vocabularies of the model: device types, IP configuration
//! methods, wireless modes and security protocols, each with the number or
//! the word that stands for it outside.
use crate::error::{ErrorView, NetworkStateError};
use crate::text::str_eq;
use vstd::prelude::*;

verus! {

/// The type of a device or of a connection.
#[derive(Clone, Copy, PartialEq, Eq, Structural, Debug)]
pub enum DeviceType {
    Loopback,
    Ethernet,
    Wireless,
}

impl DeviceType {
    /// The number that stands for the type: 0, 1 or 2.
    pub open spec fn code(self) -> u8 {
        match self {
            DeviceType::Loopback => 0,
            DeviceType::Ethernet => 1,
            DeviceType::Wireless => 2,
        }
    }

    /// The type that a number stands for.
    pub open spec fn from_code(value: u8) -> Option<DeviceType> {
        if value == 0 {
            Some(DeviceType::Loopback)
        } else if value == 1 {
            Some(DeviceType::Ethernet)
        } else if value == 2 {
            Some(DeviceType::Wireless)
        } else {
            None
        }
    }

    /// The number that stands for the type.
    pub fn to_u8(self) -> (r: u8)
        ensures
            r == self.code(),
    {
        match self {
            DeviceType::Loopback => 0,
            DeviceType::Ethernet => 1,
            DeviceType::Wireless => 2,
        }
    }

    /// The type that a number stands for; any number above 2 is refused.
    pub fn from_u8(value: u8) -> (r: Result<DeviceType, NetworkStateError>)
        ensures
            match r {
                Ok(t) => DeviceType::from_code(value) == Some(t),
                Err(e) => DeviceType::from_code(value) is None && e@
                    == ErrorView::InvalidDeviceType(value),
            },
    {
        match value {
            0 => Ok(DeviceType::Loopback),
            1 => Ok(DeviceType::Ethernet),
            2 => Ok(DeviceType::Wireless),
            _ => Err(NetworkStateError::InvalidDeviceType(value)),
        }
    }
}

/// A number read from a type's own number is that type again.
pub proof fn lemma_device_type_round_trip(t: DeviceType)
    ensures
        DeviceType::from_code(t.code()) == Some(t),
{
}

/// How an IP configuration gets its addresses.
#[derive(Clone, Copy, PartialEq, Eq, Structural, Debug)]
pub enum IpMethod {
    Disabled,
    Auto,
    Manual,
    LinkLocal,
}

impl IpMethod {
    /// The word for the method.
    pub open spec fn text(self) -> Seq<char> {
        match self {
            IpMethod::Disabled => "disabled"@,
            IpMethod::Auto => "auto"@,
            IpMethod::Manual => "manual"@,
            IpMethod::LinkLocal => "link-local"@,
        }
    }

    /// The method that a word names.
    pub open spec fn from_text(s: Seq<char>) -> Option<IpMethod> {
        if s == "disabled"@ {
            Some(IpMethod::Disabled)
        } else if s == "auto"@ {
            Some(IpMethod::Auto)
        } else if s == "manual"@ {
            Some(IpMethod::Manual)
        } else if s == "link-local"@ {
            Some(IpMethod::LinkLocal)
        } else {
            None
        }
    }

    /// The word for the method.
    pub fn as_str(self) -> (r: &'static str)
        ensures
            r@ == self.text(),
    {
        match self {
            IpMethod::Disabled => "disabled",
            IpMethod::Auto => "auto",
            IpMethod::Manual => "manual",
            IpMethod::LinkLocal => "link-local",
        }
    }

    /// Reads the word for a method; any other word is refused.
    pub fn parse(s: &str) -> (r: Result<IpMethod, NetworkStateError>)
        ensures
            match r {
                Ok(m) => IpMethod::from_text(s@) == Some(m),
                Err(e) => IpMethod::from_text(s@) is None && e@ == ErrorView::InvalidIpMethod(s@),
            },
    {
        if str_eq(s, "disabled") {
            Ok(IpMethod::Disabled)
        } else if str_eq(s, "auto") {
            Ok(IpMethod::Auto)
        } else if str_eq(s, "manual") {
            Ok(IpMethod::Manual)
        } else if str_eq(s, "link-local") {
            Ok(IpMethod::LinkLocal)
        } else {
            Err(NetworkStateError::InvalidIpMethod(String::from_str(s)))
        }
    }
}

/// The word for a method names that method.
pub proof fn lemma_ip_method_round_trip(m: IpMethod)
    ensures
        IpMethod::from_text(m.text()) == Some(m),
{
    reveal_strlit("disabled");
    reveal_strlit("auto");
    reveal_strlit("manual");
    reveal_strlit("link-local");
    assert("disabled"@.len() == 8);
    assert("auto"@.len() == 4);
    assert("manual"@.len() == 6);
    assert("link-local"@.len() == 10);
}

/// The mode of a wireless connection.
#[derive(Clone, Copy, PartialEq, Eq, Structural, Debug)]
pub enum WirelessMode {
    Unknown,
    AdHoc,
    Infra,
    AP,
    Mesh,
}

impl WirelessMode {
    /// The word for the mode.
    pub open spec fn text(self) -> Seq<char> {
        match self {
            WirelessMode::Unknown => "unknown"@,
            WirelessMode::AdHoc => "adhoc"@,
            WirelessMode::Infra => "infrastructure"@,
            WirelessMode::AP => "ap"@,
            WirelessMode::Mesh => "mesh"@,
        }
    }

    /// The mode that a word names.
    pub open spec fn from_text(s: Seq<char>) -> Option<WirelessMode> {
        if s == "unknown"@ {
            Some(WirelessMode::Unknown)
        } else if s == "adhoc"@ {
            Some(WirelessMode::AdHoc)
        } else if s == "infrastructure"@ {
            Some(WirelessMode::Infra)
        } else if s == "ap"@ {
            Some(WirelessMode::AP)
        } else if s == "mesh"@ {
            Some(WirelessMode::Mesh)
        } else {
            None
        }
    }

    /// The word for the mode.
    pub fn as_str(self) -> (r: &'static str)
        ensures
            r@ == self.text(),
    {
        match self {
            WirelessMode::Unknown => "unknown",
            WirelessMode::AdHoc => "adhoc",
            WirelessMode::Infra => "infrastructure",
            WirelessMode::AP => "ap",
            WirelessMode::Mesh => "mesh",
        }
    }

    /// Reads the word for a mode; any other word is refused.
    pub fn parse(s: &str) -> (r: Result<WirelessMode, NetworkStateError>)
        ensures
            match r {
                Ok(m) => WirelessMode::from_text(s@) == Some(m),
                Err(e) => WirelessMode::from_text(s@) is None && e@
                    == ErrorView::InvalidWirelessMode(s@),
            },
    {
        if str_eq(s, "unknown") {
            Ok(WirelessMode::Unknown)
        } else if str_eq(s, "adhoc") {
            Ok(WirelessMode::AdHoc)
        } else if str_eq(s, "infrastructure") {
            Ok(WirelessMode::Infra)
        } else if str_eq(s, "ap") {
            Ok(WirelessMode::AP)
        } else if str_eq(s, "mesh") {
            Ok(WirelessMode::Mesh)
        } else {
            Err(NetworkStateError::InvalidWirelessMode(String::from_str(s)))
        }
    }
}

/// The word for a wireless mode names that mode.
pub proof fn lemma_wireless_mode_round_trip(m: WirelessMode)
    ensures
        WirelessMode::from_text(m.text()) == Some(m),
{
    reveal_strlit("unknown");
    reveal_strlit("adhoc");
    reveal_strlit("infrastructure");
    reveal_strlit("ap");
    reveal_strlit("mesh");
    assert("unknown"@.len() == 7);
    assert("adhoc"@.len() == 5);
    assert("infrastructure"@.len() == 14);
    assert("ap"@.len() == 2);
    assert("mesh"@.len() == 4);
}

/// The security protocol of a wireless connection.
#[derive(Clone, Copy, PartialEq, Eq, Structural, Debug)]
pub enum SecurityProtocol {
    /// No encryption, or a static WEP key.
    WEP,
    /// Opportunistic wireless encryption.
    OWE,
    /// Dynamic WEP.
    DynamicWEP,
    /// WPA2 and WPA3 personal.
    WPA2,
    /// WPA3 personal only.
    WPA3Personal,
    /// WPA2 and WPA3 enterprise.
    WPA2Enterprise,
    /// WPA3 enterprise only.
    WPA3Only,
}

impl SecurityProtocol {
    /// The word for the protocol.
    pub open spec fn text(self) -> Seq<char> {
        match self {
            SecurityProtocol::WEP => "none"@,
            SecurityProtocol::OWE => "owe"@,
            SecurityProtocol::DynamicWEP => "ieee8021x"@,
            SecurityProtocol::WPA2 => "wpa-psk"@,
            SecurityProtocol::WPA3Personal => "sae"@,
            SecurityProtocol::WPA2Enterprise => "wpa-eap"@,
            SecurityProtocol::WPA3Only => "wpa-eap-suite-b192"@,
        }
    }

    /// The protocol that a word names.
    pub open spec fn from_text(s: Seq<char>) -> Option<SecurityProtocol> {
        if s == "none"@ {
            Some(SecurityProtocol::WEP)
        } else if s == "owe"@ {
            Some(SecurityProtocol::OWE)
        } else if s == "ieee8021x"@ {
            Some(SecurityProtocol::DynamicWEP)
        } else if s == "wpa-psk"@ {
            Some(SecurityProtocol::WPA2)
        } else if s == "sae"@ {
            Some(SecurityProtocol::WPA3Personal)
        } else if s == "wpa-eap"@ {
            Some(SecurityProtocol::WPA2Enterprise)
        } else if s == "wpa-eap-suite-b192"@ {
            Some(SecurityProtocol::WPA3Only)
        } else {
            None
        }
    }

    /// The word for the protocol.
    pub fn as_str(self) -> (r: &'static str)
        ensures
            r@ == self.text(),
    {
        match self {
            SecurityProtocol::WEP => "none",
            SecurityProtocol::OWE => "owe",
            SecurityProtocol::DynamicWEP => "ieee8021x",
            SecurityProtocol::WPA2 => "wpa-psk",
            SecurityProtocol::WPA3Personal => "sae",
            SecurityProtocol::WPA2Enterprise => "wpa-eap",
            SecurityProtocol::WPA3Only => "wpa-eap-suite-b192",
        }
    }

    /// Reads the word for a protocol; any other word is refused.
    pub fn parse(s: &str) -> (r: Result<SecurityProtocol, NetworkStateError>)
        ensures
            match r {
                Ok(p) => SecurityProtocol::from_text(s@) == Some(p),
                Err(e) => SecurityProtocol::from_text(s@) is None && e@
                    == ErrorView::InvalidSecurityProtocol(s@),
            },
    {
        if str_eq(s, "none") {
            Ok(SecurityProtocol::WEP)
        } else if str_eq(s, "owe") {
            Ok(SecurityProtocol::OWE)
        } else if str_eq(s, "ieee8021x") {
            Ok(SecurityProtocol::DynamicWEP)
        } else if str_eq(s, "wpa-psk") {
            Ok(SecurityProtocol::WPA2)
        } else if str_eq(s, "sae") {
            Ok(SecurityProtocol::WPA3Personal)
        } else if str_eq(s, "wpa-eap") {
            Ok(SecurityProtocol::WPA2Enterprise)
        } else if str_eq(s, "wpa-eap-suite-b192") {
            Ok(SecurityProtocol::WPA3Only)
        } else {
            Err(NetworkStateError::InvalidSecurityProtocol(String::from_str(s)))
        }
    }
}

/// The word for a security protocol names that protocol.
pub proof fn lemma_security_protocol_round_trip(p: SecurityProtocol)
    ensures
        SecurityProtocol::from_text(p.text()) == Some(p),
{
    reveal_strlit("none");
    reveal_strlit("owe");
    reveal_strlit("ieee8021x");
    reveal_strlit("wpa-psk");
    reveal_strlit("sae");
    reveal_strlit("wpa-eap");
    reveal_strlit("wpa-eap-suite-b192");
    assert("none"@.len() == 4);
    assert("owe"@.len() == 3 && "owe"@[0] == 'o');
    assert("ieee8021x"@.len() == 9);
    assert("wpa-psk"@.len() == 7 && "wpa-psk"@[4] == 'p');
    assert("sae"@.len() == 3 && "sae"@[0] == 's');
    assert("wpa-eap"@.len() == 7 && "wpa-eap"@[4] == 'e');
    assert("wpa-eap-suite-b192"@.len() == 18);
}

} // verus!
