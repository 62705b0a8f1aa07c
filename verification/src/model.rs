//! The configuration model: devices and connections of several kinds, each
//! connection with its match rules and its IPv4 and IPv6 configuration.
//!
//! Every type has a view, a plain mathematical value that the contracts of
//! the whole library speak of.
use crate::address::{IpAddress, IpFamily, Ipv4Addr};
use crate::error::{ErrorView, NetworkStateError};
use crate::ipv6::Ipv6Addr;
use crate::text::{clone_strings, view_each};
use crate::types::{DeviceType, IpMethod, SecurityProtocol, WirelessMode};
use vstd::prelude::*;

verus! {

/// A network device as device discovery reports it.
#[derive(Debug)]
pub struct Device {
    pub name: String,
    pub type_: DeviceType,
}

/// A device as a mathematical value.
pub struct DeviceView {
    pub name: Seq<char>,
    pub type_: DeviceType,
}

impl View for Device {
    type V = DeviceView;

    open spec fn view(&self) -> DeviceView {
        DeviceView { name: self.name@, type_: self.type_ }
    }
}

impl Clone for Device {
    fn clone(&self) -> (r: Self)
        ensures
            r@ == self@,
    {
        Device { name: self.name.clone(), type_: self.type_ }
    }
}

/// The rules that select the device a connection attaches to. The order
/// within a list carries no meaning.
#[derive(Debug)]
pub struct MatchConfig {
    pub driver: Vec<String>,
    pub path: Vec<String>,
    pub interface: Vec<String>,
    pub kernel: Vec<String>,
}

/// Match rules as a mathematical value.
pub struct MatchConfigView {
    pub driver: Seq<Seq<char>>,
    pub path: Seq<Seq<char>>,
    pub interface: Seq<Seq<char>>,
    pub kernel: Seq<Seq<char>>,
}

impl View for MatchConfig {
    type V = MatchConfigView;

    open spec fn view(&self) -> MatchConfigView {
        MatchConfigView {
            driver: view_each(self.driver@),
            path: view_each(self.path@),
            interface: view_each(self.interface@),
            kernel: view_each(self.kernel@),
        }
    }
}

impl MatchConfigView {
    /// Match rules that select nothing.
    pub open spec fn empty() -> MatchConfigView {
        MatchConfigView {
            driver: Seq::empty(),
            path: Seq::empty(),
            interface: Seq::empty(),
            kernel: Seq::empty(),
        }
    }
}

impl MatchConfig {
    /// Match rules with four empty lists.
    pub fn new() -> (r: Self)
        ensures
            r@ == MatchConfigView::empty(),
    {
        let r = MatchConfig {
            driver: Vec::new(),
            path: Vec::new(),
            interface: Vec::new(),
            kernel: Vec::new(),
        };
        assert(r@.driver =~= Seq::empty());
        assert(r@.path =~= Seq::empty());
        assert(r@.interface =~= Seq::empty());
        assert(r@.kernel =~= Seq::empty());
        r
    }
}

impl Clone for MatchConfig {
    fn clone(&self) -> (r: Self)
        ensures
            r@ == self@,
    {
        MatchConfig {
            driver: clone_strings(&self.driver),
            path: clone_strings(&self.path),
            interface: clone_strings(&self.interface),
            kernel: clone_strings(&self.kernel),
        }
    }
}

/// The IP configuration of one address family.
#[derive(Debug)]
pub struct IpConfig<A> {
    pub addresses: Vec<IpAddress<A>>,
    pub method: IpMethod,
    pub nameservers: Vec<A>,
    pub gateway: Option<A>,
}

/// An IP configuration as a mathematical value.
pub struct IpConfigView<A> {
    pub addresses: Seq<IpAddress<A>>,
    pub method: IpMethod,
    pub nameservers: Seq<A>,
    pub gateway: Option<A>,
}

impl<A: IpFamily> View for IpConfig<A> {
    type V = IpConfigView<A>;

    open spec fn view(&self) -> IpConfigView<A> {
        IpConfigView {
            addresses: self.addresses@,
            method: self.method,
            nameservers: self.nameservers@,
            gateway: self.gateway,
        }
    }
}

impl<A: IpFamily> IpConfigView<A> {
    /// The configuration of a new connection: nothing set, method disabled.
    pub open spec fn empty() -> IpConfigView<A> {
        IpConfigView {
            addresses: Seq::empty(),
            method: IpMethod::Disabled,
            nameservers: Seq::empty(),
            gateway: None,
        }
    }
}

/// A copy of a list of plain values.
pub fn clone_items<T: Copy>(items: &Vec<T>) -> (r: Vec<T>)
    ensures
        r@ == items@,
{
    let mut r: Vec<T> = Vec::new();
    let mut i: usize = 0;
    while i < items.len()
        invariant
            i <= items.len(),
            r@ == items@.take(i as int),
        decreases items.len() - i,
    {
        r.push(items[i]);
        assert(r@ =~= items@.take(i + 1));
        i = i + 1;
    }
    assert(items@.take(i as int) =~= items@);
    r
}

impl<A: IpFamily> Clone for IpConfig<A> {
    fn clone(&self) -> (r: Self)
        ensures
            r@ == self@,
    {
        IpConfig {
            addresses: clone_items(&self.addresses),
            method: self.method,
            nameservers: clone_items(&self.nameservers),
            gateway: self.gateway,
        }
    }
}

/// The wireless part of a wireless connection.
#[derive(Debug)]
pub struct WirelessConfig {
    pub mode: WirelessMode,
    pub ssid: Vec<u8>,
    pub password: Option<String>,
    pub security: SecurityProtocol,
}

/// Wireless settings as a mathematical value.
pub struct WirelessView {
    pub mode: WirelessMode,
    pub ssid: Seq<u8>,
    pub password: Option<Seq<char>>,
    pub security: SecurityProtocol,
}

impl View for WirelessConfig {
    type V = WirelessView;

    open spec fn view(&self) -> WirelessView {
        WirelessView {
            mode: self.mode,
            ssid: self.ssid@,
            password: match self.password {
                Some(p) => Some(p@),
                None => None,
            },
            security: self.security,
        }
    }
}

impl WirelessView {
    /// The wireless settings of a new connection.
    pub open spec fn empty() -> WirelessView {
        WirelessView {
            mode: WirelessMode::Infra,
            ssid: Seq::empty(),
            password: None,
            security: SecurityProtocol::WEP,
        }
    }
}

impl Clone for WirelessConfig {
    fn clone(&self) -> (r: Self)
        ensures
            r@ == self@,
    {
        WirelessConfig {
            mode: self.mode,
            ssid: clone_items(&self.ssid),
            password: match &self.password {
                Some(p) => Some(p.clone()),
                None => None,
            },
            security: self.security,
        }
    }
}

/// What connections of every kind have.
#[derive(Debug)]
pub struct BaseConnection {
    pub id: String,
    pub interface: String,
    pub match_config: MatchConfig,
    pub ipv4: IpConfig<Ipv4Addr>,
    pub ipv6: IpConfig<Ipv6Addr>,
}

/// The shared part of a connection as a mathematical value.
pub struct BaseView {
    pub id: Seq<char>,
    pub interface: Seq<char>,
    pub match_config: MatchConfigView,
    pub ipv4: IpConfigView<Ipv4Addr>,
    pub ipv6: IpConfigView<Ipv6Addr>,
}

impl View for BaseConnection {
    type V = BaseView;

    open spec fn view(&self) -> BaseView {
        BaseView {
            id: self.id@,
            interface: self.interface@,
            match_config: self.match_config@,
            ipv4: self.ipv4@,
            ipv6: self.ipv6@,
        }
    }
}

impl BaseView {
    /// The shared part of a new connection with the given id.
    pub open spec fn empty(id: Seq<char>) -> BaseView {
        BaseView {
            id,
            interface: Seq::empty(),
            match_config: MatchConfigView::empty(),
            ipv4: IpConfigView::empty(),
            ipv6: IpConfigView::empty(),
        }
    }
}

impl Clone for BaseConnection {
    fn clone(&self) -> (r: Self)
        ensures
            r@ == self@,
    {
        BaseConnection {
            id: self.id.clone(),
            interface: self.interface.clone(),
            match_config: self.match_config.clone(),
            ipv4: self.ipv4.clone(),
            ipv6: self.ipv6.clone(),
        }
    }
}

/// An ethernet connection.
#[derive(Debug)]
pub struct EthernetConnection {
    pub base: BaseConnection,
}

/// A wireless connection.
#[derive(Debug)]
pub struct WirelessConnection {
    pub base: BaseConnection,
    pub wireless: WirelessConfig,
}

/// A loopback connection.
#[derive(Debug)]
pub struct LoopbackConnection {
    pub base: BaseConnection,
}

/// A connection of one of the kinds.
#[derive(Debug)]
pub enum Connection {
    Ethernet(EthernetConnection),
    Wireless(WirelessConnection),
    Loopback(LoopbackConnection),
}

/// What a connection has beyond the shared part, by its kind.
pub enum KindView {
    Ethernet,
    Wireless(WirelessView),
    Loopback,
}

/// A connection as a mathematical value.
pub struct ConnectionView {
    pub base: BaseView,
    pub kind: KindView,
}

impl ConnectionView {
    /// The type of the connection.
    pub open spec fn device_type(self) -> DeviceType {
        match self.kind {
            KindView::Ethernet => DeviceType::Ethernet,
            KindView::Wireless(_) => DeviceType::Wireless,
            KindView::Loopback => DeviceType::Loopback,
        }
    }

    /// A new connection of the given type: nothing set but the id.
    pub open spec fn empty(id: Seq<char>, device_type: DeviceType) -> ConnectionView {
        ConnectionView {
            base: BaseView::empty(id),
            kind: match device_type {
                DeviceType::Ethernet => KindView::Ethernet,
                DeviceType::Wireless => KindView::Wireless(WirelessView::empty()),
                DeviceType::Loopback => KindView::Loopback,
            },
        }
    }
}

impl View for Connection {
    type V = ConnectionView;

    open spec fn view(&self) -> ConnectionView {
        match self {
            Connection::Ethernet(c) => ConnectionView { base: c.base@, kind: KindView::Ethernet },
            Connection::Wireless(c) => ConnectionView {
                base: c.base@,
                kind: KindView::Wireless(c.wireless@),
            },
            Connection::Loopback(c) => ConnectionView { base: c.base@, kind: KindView::Loopback },
        }
    }
}

impl Clone for Connection {
    fn clone(&self) -> (r: Self)
        ensures
            r@ == self@,
    {
        match self {
            Connection::Ethernet(c) => Connection::Ethernet(
                EthernetConnection { base: c.base.clone() },
            ),
            Connection::Wireless(c) => Connection::Wireless(
                WirelessConnection { base: c.base.clone(), wireless: c.wireless.clone() },
            ),
            Connection::Loopback(c) => Connection::Loopback(
                LoopbackConnection { base: c.base.clone() },
            ),
        }
    }
}

impl Connection {
    /// The shared part of the connection.
    pub open spec fn spec_base(&self) -> BaseConnection {
        match self {
            Connection::Ethernet(c) => c.base,
            Connection::Wireless(c) => c.base,
            Connection::Loopback(c) => c.base,
        }
    }

    /// The connection with another shared part.
    pub open spec fn with_base(self, base: BaseConnection) -> Connection {
        match self {
            Connection::Ethernet(c) => Connection::Ethernet(EthernetConnection { base }),
            Connection::Wireless(c) => Connection::Wireless(
                WirelessConnection { base, wireless: c.wireless },
            ),
            Connection::Loopback(c) => Connection::Loopback(LoopbackConnection { base }),
        }
    }

    /// A new connection of the given type with nothing set but its id.
    pub fn new(id: String, device_type: DeviceType) -> (r: Self)
        ensures
            r@ == ConnectionView::empty(id@, device_type),
    {
        let base = BaseConnection {
            id,
            interface: String::new(),
            match_config: MatchConfig::new(),
            ipv4: IpConfig {
                addresses: Vec::new(),
                method: IpMethod::Disabled,
                nameservers: Vec::new(),
                gateway: None,
            },
            ipv6: IpConfig {
                addresses: Vec::new(),
                method: IpMethod::Disabled,
                nameservers: Vec::new(),
                gateway: None,
            },
        };
        assert(base.ipv4@.addresses =~= Seq::empty());
        assert(base.ipv4@.nameservers =~= Seq::empty());
        assert(base.ipv6@.addresses =~= Seq::empty());
        assert(base.ipv6@.nameservers =~= Seq::empty());
        assert(base@ == BaseView::empty(id@));
        match device_type {
            DeviceType::Ethernet => Connection::Ethernet(EthernetConnection { base }),
            DeviceType::Wireless => {
                let wireless = WirelessConfig {
                    mode: WirelessMode::Infra,
                    ssid: Vec::new(),
                    password: None,
                    security: SecurityProtocol::WEP,
                };
                assert(wireless@.ssid =~= Seq::empty());
                Connection::Wireless(WirelessConnection { base, wireless })
            },
            DeviceType::Loopback => Connection::Loopback(LoopbackConnection { base }),
        }
    }

    /// The shared part of the connection.
    pub fn base(&self) -> (b: &BaseConnection)
        ensures
            *b == self.spec_base(),
            b@ == self@.base,
    {
        match self {
            Connection::Ethernet(c) => &c.base,
            Connection::Wireless(c) => &c.base,
            Connection::Loopback(c) => &c.base,
        }
    }

    /// The shared part of the connection, to be changed in place. Nothing
    /// else of the connection changes.
    pub fn base_mut(&mut self) -> (b: &mut BaseConnection)
        ensures
            *b == old(self).spec_base(),
            *final(self) == old(self).with_base(*final(b)),
            final(self)@ == (ConnectionView { base: final(b)@, kind: old(self)@.kind }),
    {
        match self {
            Connection::Ethernet(c) => &mut c.base,
            Connection::Wireless(c) => &mut c.base,
            Connection::Loopback(c) => &mut c.base,
        }
    }

    /// The id of the connection.
    pub fn id(&self) -> (r: &str)
        ensures
            r@ == self@.base.id,
    {
        self.base().id.as_str()
    }

    /// The name of the interface that the connection is bound to; empty when
    /// it is bound to none.
    pub fn interface(&self) -> (r: &str)
        ensures
            r@ == self@.base.interface,
    {
        self.base().interface.as_str()
    }

    /// Binds the connection to the interface of the given name.
    pub fn set_interface(&mut self, name: &str)
        ensures
            final(self)@ == (ConnectionView {
                base: BaseView { interface: name@, ..old(self)@.base },
                kind: old(self)@.kind,
            }),
    {
        let base = self.base_mut();
        base.interface = String::from_str(name);
    }

    /// The type of the connection.
    pub fn device_type(&self) -> (t: DeviceType)
        ensures
            t == self@.device_type(),
    {
        match self {
            Connection::Ethernet(_) => DeviceType::Ethernet,
            Connection::Wireless(_) => DeviceType::Wireless,
            Connection::Loopback(_) => DeviceType::Loopback,
        }
    }

    /// The wireless settings, where the connection is a wireless one.
    pub fn wireless(&self) -> (r: Result<&WirelessConfig, NetworkStateError>)
        ensures
            match r {
                Ok(w) => self@.kind == KindView::Wireless(w@),
                Err(e) => !(self@.kind is Wireless) && e@ == ErrorView::NotWireless(
                    self@.base.id,
                ),
            },
    {
        match self {
            Connection::Wireless(c) => Ok(&c.wireless),
            _ => Err(NetworkStateError::NotWireless(String::from_str(self.id()))),
        }
    }
}

} // verus!
