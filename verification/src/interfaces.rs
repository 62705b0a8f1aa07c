//! The property surface: one adapter for each facet of the model.
//!
//! A read projects a value out of the shared model. A write runs with
//! exclusive access to the connection and to the queue of intents: it
//! validates its input, changes the connection in place, and puts a snapshot
//! of the changed connection on the queue before it gives the access back.
//! A refused write changes nothing and queues nothing. The change is made
//! before the intent is queued, so where the queue is closed the change
//! stays and the write reports that the backend is unavailable.
use crate::action::{queued, Action, ActionQueue, ActionView};
use crate::address::Ipv4Addr;
use crate::error::{ErrorView, NetworkStateError};
use crate::ip::{
    address_texts, first_invalid, gateway_text, parsed_addresses, parsed_gateway, parsed_servers,
    rejected_entries, server_texts, RejectedEntry,
};
use crate::ipv6::Ipv6Addr;
use crate::model::{
    clone_items, BaseView, Connection as NetworkConnection, ConnectionView,
    Device as NetworkDevice, DeviceView, IpConfigView, KindView, MatchConfigView, WirelessView,
};
use crate::registry::{lookup, paths_of, valid_object_paths, valid_paths, ObjectsRegistry};
use crate::text::{clone_strings, view_each};
use crate::types::{DeviceType, IpMethod, SecurityProtocol, WirelessMode};
use vstd::prelude::*;

verus! {

/// The connection with other match rules.
pub open spec fn with_match(c: ConnectionView, match_config: MatchConfigView) -> ConnectionView {
    ConnectionView { base: BaseView { match_config, ..c.base }, kind: c.kind }
}

/// The connection with another interface name.
pub open spec fn with_interface(c: ConnectionView, interface: Seq<char>) -> ConnectionView {
    ConnectionView { base: BaseView { interface, ..c.base }, kind: c.kind }
}

/// The connection with another IPv4 configuration.
pub open spec fn with_ipv4(c: ConnectionView, ipv4: IpConfigView<Ipv4Addr>) -> ConnectionView {
    ConnectionView { base: BaseView { ipv4, ..c.base }, kind: c.kind }
}

/// The connection with another IPv6 configuration.
pub open spec fn with_ipv6(c: ConnectionView, ipv6: IpConfigView<Ipv6Addr>) -> ConnectionView {
    ConnectionView { base: BaseView { ipv6, ..c.base }, kind: c.kind }
}

/// The connection with other wireless settings.
pub open spec fn with_wireless(c: ConnectionView, wireless: WirelessView) -> ConnectionView {
    ConnectionView { base: c.base, kind: KindView::Wireless(wireless) }
}

/// The text of a password: empty where there is none.
pub open spec fn password_text(password: Option<Seq<char>>) -> Seq<char> {
    match password {
        Some(p) => p,
        None => Seq::empty(),
    }
}

/// The password that a text stands for: none for the empty text.
pub open spec fn parsed_password(text: Seq<char>) -> Option<Seq<char>> {
    if text.len() == 0 {
        None
    } else {
        Some(text)
    }
}

/// What a wireless read gives: the projected value for a wireless
/// connection, and for any other a failure that names the connection.
pub open spec fn wireless_read<T>(c: ConnectionView, r: Result<T, NetworkStateError>) -> bool {
    if c.kind is Wireless {
        r is Ok
    } else {
        r matches Err(e) && e@ == ErrorView::NotWireless(c.base.id)
    }
}

/// The wireless settings of a wireless connection.
pub open spec fn wireless_of(c: ConnectionView) -> WirelessView {
    match c.kind {
        KindView::Wireless(w) => w,
        _ => WirelessView::empty(),
    }
}

/// What a write with valid input does: the connection becomes `target`, and
/// a snapshot of exactly that connection is queued as one intent.
pub open spec fn committed(
    target: ConnectionView,
    connection_after: ConnectionView,
    before: &ActionQueue,
    after: &ActionQueue,
    r: Result<(), NetworkStateError>,
) -> bool {
    &&& connection_after == target
    &&& queued(ActionView::UpdateConnection(target), before, after, r)
}

/// What a refused write does: it reports the failure, and neither the
/// connection nor the queue changes.
pub open spec fn refused(
    error: ErrorView,
    connection_before: ConnectionView,
    connection_after: ConnectionView,
    before: &ActionQueue,
    after: &ActionQueue,
    r: Result<(), NetworkStateError>,
) -> bool {
    &&& r matches Err(e)
    &&& e@ == error
    &&& connection_after == connection_before
    &&& after@ == before@
    &&& after.is_closed() == before.is_closed()
}

/// Queues a snapshot of the connection as an intent to update it.
pub fn update_connection(connection: &NetworkConnection, actions: &mut ActionQueue) -> (r: Result<
    (),
    NetworkStateError,
>)
    ensures
        queued(ActionView::UpdateConnection(connection@), old(actions), final(actions), r),
{
    actions.enqueue(Action::UpdateConnection(connection.clone()))
}

/// The adapter for the collection of devices.
pub struct Devices {}

impl Devices {
    /// The paths of the registered devices, in the order of the registry.
    /// A path that is no valid object path is left out.
    pub fn get_devices(objects: &ObjectsRegistry) -> (r: Vec<String>)
        ensures
            view_each(r@) == valid_paths(paths_of(objects@.devices)),
    {
        valid_object_paths(objects.devices_paths())
    }
}

/// The adapter for one device. A device is read only.
pub struct Device {
    device: NetworkDevice,
}

impl View for Device {
    type V = DeviceView;

    closed spec fn view(&self) -> DeviceView {
        self.device@
    }
}

impl Device {
    /// The adapter for the given device.
    pub fn new(device: NetworkDevice) -> (r: Self)
        ensures
            r@ == device@,
    {
        Device { device }
    }

    /// The kernel name of the device.
    pub fn name(&self) -> (r: &str)
        ensures
            r@ == self@.name,
    {
        self.device.name.as_str()
    }

    /// The type of the device as a number: 0 for loopback, 1 for ethernet,
    /// 2 for wireless.
    pub fn device_type(&self) -> (r: u8)
        ensures
            r == self@.type_.code(),
    {
        self.device.type_.to_u8()
    }
}

/// The adapter for the collection of connections.
///
/// Adding and removing a connection only queue the intent. The registry
/// changes when the backend has acted on it, so a connection that was just
/// added is not found until its path has been registered.
pub struct Connections {}

impl Connections {
    /// The paths of the registered connections, in the order of the
    /// registry. A path that is no valid object path is left out.
    pub fn get_connections(objects: &ObjectsRegistry) -> (r: Vec<String>)
        ensures
            view_each(r@) == valid_paths(paths_of(objects@.connections)),
    {
        valid_object_paths(objects.connections_paths())
    }

    /// Queues the intent to add a connection of the given id and type. A
    /// number that stands for no type is refused and nothing is queued.
    pub fn add_connection(actions: &mut ActionQueue, id: String, ty: u8) -> (r: Result<
        (),
        NetworkStateError,
    >)
        ensures
            match DeviceType::from_code(ty) {
                Some(t) => queued(
                    ActionView::AddConnection(id@, t),
                    old(actions),
                    final(actions),
                    r,
                ),
                None => {
                    &&& r matches Err(e)
                    &&& e@ == ErrorView::InvalidDeviceType(ty)
                    &&& final(actions)@ == old(actions)@
                    &&& final(actions).is_closed() == old(actions).is_closed()
                },
            },
    {
        match DeviceType::from_u8(ty) {
            Ok(t) => actions.enqueue(Action::AddConnection(id, t)),
            Err(e) => Err(e),
        }
    }

    /// The path of the connection of the given id. An id that is not
    /// registered is reported as unknown.
    pub fn get_connection(objects: &ObjectsRegistry, id: &str) -> (r: Result<
        String,
        NetworkStateError,
    >)
        ensures
            match lookup(objects@.connections, id@) {
                Some(p) => r matches Ok(path) && path@ == p,
                None => r matches Err(e) && e@ == ErrorView::UnknownConnection(id@),
            },
    {
        match objects.connection_path(id) {
            Some(path) => Ok(path),
            None => Err(NetworkStateError::UnknownConnection(String::from_str(id))),
        }
    }

    /// Queues the intent to remove the connection of the given id.
    pub fn remove_connection(actions: &mut ActionQueue, id: &str) -> (r: Result<
        (),
        NetworkStateError,
    >)
        ensures
            queued(ActionView::RemoveConnection(id@), old(actions), final(actions), r),
    {
        actions.enqueue(Action::RemoveConnection(String::from_str(id)))
    }

    /// Queues the intent to apply the configuration.
    pub fn apply(actions: &mut ActionQueue) -> (r: Result<(), NetworkStateError>)
        ensures
            queued(ActionView::Apply, old(actions), final(actions), r),
    {
        actions.enqueue(Action::Apply)
    }
}

/// The adapter for the identity of a connection.
pub struct Connection {}

impl Connection {
    /// The id of the connection.
    pub fn id(connection: &NetworkConnection) -> (r: String)
        ensures
            r@ == connection@.base.id,
    {
        String::from_str(connection.id())
    }

    /// The name of the interface that the connection is bound to.
    pub fn interface(connection: &NetworkConnection) -> (r: String)
        ensures
            r@ == connection@.base.interface,
    {
        String::from_str(connection.interface())
    }

    /// Binds the connection to the interface of the given name.
    pub fn set_interface(
        connection: &mut NetworkConnection,
        actions: &mut ActionQueue,
        name: &str,
    ) -> (r: Result<(), NetworkStateError>)
        ensures
            committed(
                with_interface(old(connection)@, name@),
                final(connection)@,
                old(actions),
                final(actions),
                r,
            ),
    {
        connection.set_interface(name);
        update_connection(connection, actions)
    }
}

/// The adapter for the match rules of a connection. The lists are taken as
/// they are given.
pub struct Match {}

impl Match {
    /// The drivers that the connection matches.
    pub fn driver(connection: &NetworkConnection) -> (r: Vec<String>)
        ensures
            view_each(r@) == connection@.base.match_config.driver,
    {
        clone_strings(&connection.base().match_config.driver)
    }

    /// Replaces the drivers that the connection matches.
    pub fn set_driver(
        connection: &mut NetworkConnection,
        actions: &mut ActionQueue,
        driver: Vec<String>,
    ) -> (r: Result<(), NetworkStateError>)
        ensures
            committed(
                with_match(
                    old(connection)@,
                    MatchConfigView {
                        driver: view_each(driver@),
                        ..old(connection)@.base.match_config
                    },
                ),
                final(connection)@,
                old(actions),
                final(actions),
                r,
            ),
    {
        let base = connection.base_mut();
        base.match_config.driver = driver;
        update_connection(connection, actions)
    }

    /// The paths that the connection matches.
    pub fn path(connection: &NetworkConnection) -> (r: Vec<String>)
        ensures
            view_each(r@) == connection@.base.match_config.path,
    {
        clone_strings(&connection.base().match_config.path)
    }

    /// Replaces the paths that the connection matches.
    pub fn set_path(
        connection: &mut NetworkConnection,
        actions: &mut ActionQueue,
        path: Vec<String>,
    ) -> (r: Result<(), NetworkStateError>)
        ensures
            committed(
                with_match(
                    old(connection)@,
                    MatchConfigView {
                        path: view_each(path@),
                        ..old(connection)@.base.match_config
                    },
                ),
                final(connection)@,
                old(actions),
                final(actions),
                r,
            ),
    {
        let base = connection.base_mut();
        base.match_config.path = path;
        update_connection(connection, actions)
    }

    /// The interface names that the connection matches.
    pub fn interface(connection: &NetworkConnection) -> (r: Vec<String>)
        ensures
            view_each(r@) == connection@.base.match_config.interface,
    {
        clone_strings(&connection.base().match_config.interface)
    }

    /// Replaces the interface names that the connection matches.
    pub fn set_interface(
        connection: &mut NetworkConnection,
        actions: &mut ActionQueue,
        interface: Vec<String>,
    ) -> (r: Result<(), NetworkStateError>)
        ensures
            committed(
                with_match(
                    old(connection)@,
                    MatchConfigView {
                        interface: view_each(interface@),
                        ..old(connection)@.base.match_config
                    },
                ),
                final(connection)@,
                old(actions),
                final(actions),
                r,
            ),
    {
        let base = connection.base_mut();
        base.match_config.interface = interface;
        update_connection(connection, actions)
    }

    /// The kernel options that the connection matches.
    pub fn kernel(connection: &NetworkConnection) -> (r: Vec<String>)
        ensures
            view_each(r@) == connection@.base.match_config.kernel,
    {
        clone_strings(&connection.base().match_config.kernel)
    }

    /// Replaces the kernel options that the connection matches.
    pub fn set_kernel(
        connection: &mut NetworkConnection,
        actions: &mut ActionQueue,
        kernel: Vec<String>,
    ) -> (r: Result<(), NetworkStateError>)
        ensures
            committed(
                with_match(
                    old(connection)@,
                    MatchConfigView {
                        kernel: view_each(kernel@),
                        ..old(connection)@.base.match_config
                    },
                ),
                final(connection)@,
                old(actions),
                final(actions),
                r,
            ),
    {
        let base = connection.base_mut();
        base.match_config.kernel = kernel;
        update_connection(connection, actions)
    }
}

/// The adapter for the IPv4 configuration of a connection.
pub struct Ipv4 {}

impl Ipv4 {
    /// The addresses, each as `address/prefix`.
    pub fn addresses(connection: &NetworkConnection) -> (r: Vec<String>)
        ensures
            view_each(r@) == address_texts(connection@.base.ipv4.addresses),
    {
        connection.base().ipv4.addresses()
    }

    /// Replaces the addresses by those that the entries denote. An entry
    /// that is no IPv4 address with a prefix is left out and returned with
    /// the reason; it does not fail the write.
    pub fn set_addresses(
        connection: &mut NetworkConnection,
        actions: &mut ActionQueue,
        addresses: Vec<String>,
    ) -> (r: Result<Vec<RejectedEntry>, NetworkStateError>)
        ensures
            final(connection)@ == with_ipv4(
                old(connection)@,
                IpConfigView {
                    addresses: parsed_addresses::<Ipv4Addr>(view_each(addresses@)),
                    ..old(connection)@.base.ipv4
                },
            ),
            queued(
                ActionView::UpdateConnection(final(connection)@),
                old(actions),
                final(actions),
                match r {
                    Ok(_) => Ok(()),
                    Err(e) => Err(e),
                },
            ),
            r matches Ok(rejected) ==> view_each(rejected@) == rejected_entries::<Ipv4Addr>(
                view_each(addresses@),
            ),
    {
        let base = connection.base_mut();
        let rejected = base.ipv4.set_addresses(&addresses);
        match update_connection(connection, actions) {
            Ok(_) => Ok(rejected),
            Err(e) => Err(e),
        }
    }

    /// The word for the configuration method.
    pub fn method(connection: &NetworkConnection) -> (r: String)
        ensures
            r@ == connection@.base.ipv4.method.text(),
    {
        connection.base().ipv4.method()
    }

    /// Sets the configuration method that the word names.
    pub fn set_method(
        connection: &mut NetworkConnection,
        actions: &mut ActionQueue,
        method: &str,
    ) -> (r: Result<(), NetworkStateError>)
        ensures
            match IpMethod::from_text(method@) {
                Some(m) => committed(
                    with_ipv4(
                        old(connection)@,
                        IpConfigView { method: m, ..old(connection)@.base.ipv4 },
                    ),
                    final(connection)@,
                    old(actions),
                    final(actions),
                    r,
                ),
                None => refused(
                    ErrorView::InvalidIpMethod(method@),
                    old(connection)@,
                    final(connection)@,
                    old(actions),
                    final(actions),
                    r,
                ),
            },
    {
        let base = connection.base_mut();
        match base.ipv4.set_method(method) {
            Ok(_) => {},
            Err(e) => {
                return Err(e);
            },
        }
        update_connection(connection, actions)
    }

    /// The nameservers, each as the text of its address.
    pub fn nameservers(connection: &NetworkConnection) -> (r: Vec<String>)
        ensures
            view_each(r@) == server_texts(connection@.base.ipv4.nameservers),
    {
        connection.base().ipv4.nameservers()
    }

    /// Replaces the nameservers by those that the entries denote. One entry
    /// that is no IPv4 address refuses the whole write, with the first such
    /// entry, and the nameservers stay as they were.
    pub fn set_nameservers(
        connection: &mut NetworkConnection,
        actions: &mut ActionQueue,
        addresses: Vec<String>,
    ) -> (r: Result<(), NetworkStateError>)
        ensures
            match first_invalid::<Ipv4Addr>(view_each(addresses@), 0) {
                None => committed(
                    with_ipv4(
                        old(connection)@,
                        IpConfigView {
                            nameservers: parsed_servers::<Ipv4Addr>(view_each(addresses@)),
                            ..old(connection)@.base.ipv4
                        },
                    ),
                    final(connection)@,
                    old(actions),
                    final(actions),
                    r,
                ),
                Some(k) => refused(
                    ErrorView::InvalidIpAddr(addresses[k]@),
                    old(connection)@,
                    final(connection)@,
                    old(actions),
                    final(actions),
                    r,
                ),
            },
    {
        let base = connection.base_mut();
        match base.ipv4.set_nameservers(&addresses) {
            Ok(_) => {},
            Err(e) => {
                return Err(e);
            },
        }
        update_connection(connection, actions)
    }

    /// The text of the gateway; empty where there is none.
    pub fn gateway(connection: &NetworkConnection) -> (r: String)
        ensures
            r@ == gateway_text(connection@.base.ipv4.gateway),
    {
        connection.base().ipv4.gateway()
    }

    /// Sets the gateway. The empty text clears it, whatever it was; any
    /// other text must be an IPv4 address.
    pub fn set_gateway(
        connection: &mut NetworkConnection,
        actions: &mut ActionQueue,
        gateway: String,
    ) -> (r: Result<(), NetworkStateError>)
        ensures
            match parsed_gateway::<Ipv4Addr>(gateway@) {
                Some(g) => committed(
                    with_ipv4(
                        old(connection)@,
                        IpConfigView { gateway: g, ..old(connection)@.base.ipv4 },
                    ),
                    final(connection)@,
                    old(actions),
                    final(actions),
                    r,
                ),
                None => refused(
                    ErrorView::InvalidIpAddr(gateway@),
                    old(connection)@,
                    final(connection)@,
                    old(actions),
                    final(actions),
                    r,
                ),
            },
    {
        let base = connection.base_mut();
        match base.ipv4.set_gateway(gateway.as_str()) {
            Ok(_) => {},
            Err(e) => {
                return Err(e);
            },
        }
        update_connection(connection, actions)
    }
}

/// The adapter for the IPv6 configuration of a connection.
pub struct Ipv6 {}

impl Ipv6 {
    /// The addresses, each as `address/prefix`.
    pub fn addresses(connection: &NetworkConnection) -> (r: Vec<String>)
        ensures
            view_each(r@) == address_texts(connection@.base.ipv6.addresses),
    {
        connection.base().ipv6.addresses()
    }

    /// Replaces the addresses by those that the entries denote. An entry
    /// that is no IPv6 address with a prefix is left out and returned with
    /// the reason; it does not fail the write.
    pub fn set_addresses(
        connection: &mut NetworkConnection,
        actions: &mut ActionQueue,
        addresses: Vec<String>,
    ) -> (r: Result<Vec<RejectedEntry>, NetworkStateError>)
        ensures
            final(connection)@ == with_ipv6(
                old(connection)@,
                IpConfigView {
                    addresses: parsed_addresses::<Ipv6Addr>(view_each(addresses@)),
                    ..old(connection)@.base.ipv6
                },
            ),
            queued(
                ActionView::UpdateConnection(final(connection)@),
                old(actions),
                final(actions),
                match r {
                    Ok(_) => Ok(()),
                    Err(e) => Err(e),
                },
            ),
            r matches Ok(rejected) ==> view_each(rejected@) == rejected_entries::<Ipv6Addr>(
                view_each(addresses@),
            ),
    {
        let base = connection.base_mut();
        let rejected = base.ipv6.set_addresses(&addresses);
        match update_connection(connection, actions) {
            Ok(_) => Ok(rejected),
            Err(e) => Err(e),
        }
    }

    /// The word for the configuration method.
    pub fn method(connection: &NetworkConnection) -> (r: String)
        ensures
            r@ == connection@.base.ipv6.method.text(),
    {
        connection.base().ipv6.method()
    }

    /// Sets the configuration method that the word names.
    pub fn set_method(
        connection: &mut NetworkConnection,
        actions: &mut ActionQueue,
        method: &str,
    ) -> (r: Result<(), NetworkStateError>)
        ensures
            match IpMethod::from_text(method@) {
                Some(m) => committed(
                    with_ipv6(
                        old(connection)@,
                        IpConfigView { method: m, ..old(connection)@.base.ipv6 },
                    ),
                    final(connection)@,
                    old(actions),
                    final(actions),
                    r,
                ),
                None => refused(
                    ErrorView::InvalidIpMethod(method@),
                    old(connection)@,
                    final(connection)@,
                    old(actions),
                    final(actions),
                    r,
                ),
            },
    {
        let base = connection.base_mut();
        match base.ipv6.set_method(method) {
            Ok(_) => {},
            Err(e) => {
                return Err(e);
            },
        }
        update_connection(connection, actions)
    }

    /// The nameservers, each as the text of its address.
    pub fn nameservers(connection: &NetworkConnection) -> (r: Vec<String>)
        ensures
            view_each(r@) == server_texts(connection@.base.ipv6.nameservers),
    {
        connection.base().ipv6.nameservers()
    }

    /// Replaces the nameservers by those that the entries denote. One entry
    /// that is no IPv6 address refuses the whole write, with the first such
    /// entry, and the nameservers stay as they were.
    pub fn set_nameservers(
        connection: &mut NetworkConnection,
        actions: &mut ActionQueue,
        addresses: Vec<String>,
    ) -> (r: Result<(), NetworkStateError>)
        ensures
            match first_invalid::<Ipv6Addr>(view_each(addresses@), 0) {
                None => committed(
                    with_ipv6(
                        old(connection)@,
                        IpConfigView {
                            nameservers: parsed_servers::<Ipv6Addr>(view_each(addresses@)),
                            ..old(connection)@.base.ipv6
                        },
                    ),
                    final(connection)@,
                    old(actions),
                    final(actions),
                    r,
                ),
                Some(k) => refused(
                    ErrorView::InvalidIpAddr(addresses[k]@),
                    old(connection)@,
                    final(connection)@,
                    old(actions),
                    final(actions),
                    r,
                ),
            },
    {
        let base = connection.base_mut();
        match base.ipv6.set_nameservers(&addresses) {
            Ok(_) => {},
            Err(e) => {
                return Err(e);
            },
        }
        update_connection(connection, actions)
    }

    /// The text of the gateway; empty where there is none.
    pub fn gateway(connection: &NetworkConnection) -> (r: String)
        ensures
            r@ == gateway_text(connection@.base.ipv6.gateway),
    {
        connection.base().ipv6.gateway()
    }

    /// Sets the gateway. The empty text clears it, whatever it was; any
    /// other text must be an IPv6 address.
    pub fn set_gateway(
        connection: &mut NetworkConnection,
        actions: &mut ActionQueue,
        gateway: String,
    ) -> (r: Result<(), NetworkStateError>)
        ensures
            match parsed_gateway::<Ipv6Addr>(gateway@) {
                Some(g) => committed(
                    with_ipv6(
                        old(connection)@,
                        IpConfigView { gateway: g, ..old(connection)@.base.ipv6 },
                    ),
                    final(connection)@,
                    old(actions),
                    final(actions),
                    r,
                ),
                None => refused(
                    ErrorView::InvalidIpAddr(gateway@),
                    old(connection)@,
                    final(connection)@,
                    old(actions),
                    final(actions),
                    r,
                ),
            },
    {
        let base = connection.base_mut();
        match base.ipv6.set_gateway(gateway.as_str()) {
            Ok(_) => {},
            Err(e) => {
                return Err(e);
            },
        }
        update_connection(connection, actions)
    }
}

/// The adapter for the wireless settings of a connection.
///
/// Every read and every write first asks whether the connection is a
/// wireless one. If it is not, the call fails with a failure of its own
/// class; it neither aborts nor changes anything.
pub struct Wireless {}

impl Wireless {
    /// The SSID of the network, as bytes.
    pub fn ssid(connection: &NetworkConnection) -> (r: Result<Vec<u8>, NetworkStateError>)
        ensures
            wireless_read(connection@, r),
            r matches Ok(v) ==> v@ == wireless_of(connection@).ssid,
    {
        match connection.wireless() {
            Ok(w) => Ok(clone_items(&w.ssid)),
            Err(e) => Err(e),
        }
    }

    /// Sets the SSID of the network. Any bytes are taken.
    pub fn set_ssid(
        connection: &mut NetworkConnection,
        actions: &mut ActionQueue,
        ssid: Vec<u8>,
    ) -> (r: Result<(), NetworkStateError>)
        ensures
            if !(old(connection)@.kind is Wireless) {
                refused(
                    ErrorView::NotWireless(old(connection)@.base.id),
                    old(connection)@,
                    final(connection)@,
                    old(actions),
                    final(actions),
                    r,
                )
            } else {
                committed(
                    with_wireless(
                        old(connection)@,
                        WirelessView { ssid: ssid@, ..wireless_of(old(connection)@) },
                    ),
                    final(connection)@,
                    old(actions),
                    final(actions),
                    r,
                )
            },
    {
        match connection {
            NetworkConnection::Wireless(c) => {
                c.wireless.ssid = ssid;
            },
            _ => {
                return Err(NetworkStateError::NotWireless(String::from_str(connection.id())));
            },
        }
        update_connection(connection, actions)
    }

    /// The word for the wireless mode.
    pub fn mode(connection: &NetworkConnection) -> (r: Result<String, NetworkStateError>)
        ensures
            wireless_read(connection@, r),
            r matches Ok(v) ==> v@ == wireless_of(connection@).mode.text(),
    {
        match connection.wireless() {
            Ok(w) => Ok(String::from_str(w.mode.as_str())),
            Err(e) => Err(e),
        }
    }

    /// Sets the wireless mode that the word names.
    pub fn set_mode(
        connection: &mut NetworkConnection,
        actions: &mut ActionQueue,
        mode: &str,
    ) -> (r: Result<(), NetworkStateError>)
        ensures
            if !(old(connection)@.kind is Wireless) {
                refused(
                    ErrorView::NotWireless(old(connection)@.base.id),
                    old(connection)@,
                    final(connection)@,
                    old(actions),
                    final(actions),
                    r,
                )
            } else {
                match WirelessMode::from_text(mode@) {
                    Some(v) => committed(
                        with_wireless(
                            old(connection)@,
                            WirelessView { mode: v, ..wireless_of(old(connection)@) },
                        ),
                        final(connection)@,
                        old(actions),
                        final(actions),
                        r,
                    ),
                    None => refused(
                        ErrorView::InvalidWirelessMode(mode@),
                        old(connection)@,
                        final(connection)@,
                        old(actions),
                        final(actions),
                        r,
                    ),
                }
            },
    {
        match connection {
            NetworkConnection::Wireless(c) => {
                match WirelessMode::parse(mode) {
                    Ok(m) => {
                        c.wireless.mode = m;
                    },
                    Err(e) => {
                        return Err(e);
                    },
                }
            },
            _ => {
                return Err(NetworkStateError::NotWireless(String::from_str(connection.id())));
            },
        }
        update_connection(connection, actions)
    }

    /// The password of the network; empty where there is none.
    pub fn password(connection: &NetworkConnection) -> (r: Result<String, NetworkStateError>)
        ensures
            wireless_read(connection@, r),
            r matches Ok(v) ==> v@ == password_text(wireless_of(connection@).password),
    {
        match connection.wireless() {
            Ok(w) => Ok(match &w.password {
                Some(p) => p.clone(),
                None => String::new(),
            }),
            Err(e) => Err(e),
        }
    }

    /// Sets the password of the network. The empty text clears it.
    pub fn set_password(
        connection: &mut NetworkConnection,
        actions: &mut ActionQueue,
        password: String,
    ) -> (r: Result<(), NetworkStateError>)
        ensures
            if !(old(connection)@.kind is Wireless) {
                refused(
                    ErrorView::NotWireless(old(connection)@.base.id),
                    old(connection)@,
                    final(connection)@,
                    old(actions),
                    final(actions),
                    r,
                )
            } else {
                committed(
                    with_wireless(
                        old(connection)@,
                        WirelessView { password: parsed_password(password@), ..wireless_of(old(connection)@) },
                    ),
                    final(connection)@,
                    old(actions),
                    final(actions),
                    r,
                )
            },
    {
        match connection {
            NetworkConnection::Wireless(c) => {
                c.wireless.password = if password.as_str().is_empty() {
                    None
                } else {
                    Some(password)
                };
            },
            _ => {
                return Err(NetworkStateError::NotWireless(String::from_str(connection.id())));
            },
        }
        update_connection(connection, actions)
    }

    /// The word for the security protocol.
    pub fn security(connection: &NetworkConnection) -> (r: Result<String, NetworkStateError>)
        ensures
            wireless_read(connection@, r),
            r matches Ok(v) ==> v@ == wireless_of(connection@).security.text(),
    {
        match connection.wireless() {
            Ok(w) => Ok(String::from_str(w.security.as_str())),
            Err(e) => Err(e),
        }
    }

    /// Sets the security protocol that the word names.
    pub fn set_security(
        connection: &mut NetworkConnection,
        actions: &mut ActionQueue,
        security: &str,
    ) -> (r: Result<(), NetworkStateError>)
        ensures
            if !(old(connection)@.kind is Wireless) {
                refused(
                    ErrorView::NotWireless(old(connection)@.base.id),
                    old(connection)@,
                    final(connection)@,
                    old(actions),
                    final(actions),
                    r,
                )
            } else {
                match SecurityProtocol::from_text(security@) {
                    Some(v) => committed(
                        with_wireless(
                            old(connection)@,
                            WirelessView { security: v, ..wireless_of(old(connection)@) },
                        ),
                        final(connection)@,
                        old(actions),
                        final(actions),
                        r,
                    ),
                    None => refused(
                        ErrorView::InvalidSecurityProtocol(security@),
                        old(connection)@,
                        final(connection)@,
                        old(actions),
                        final(actions),
                        r,
                    ),
                }
            },
    {
        match connection {
            NetworkConnection::Wireless(c) => {
                match SecurityProtocol::parse(security) {
                    Ok(p) => {
                        c.wireless.security = p;
                    },
                    Err(e) => {
                        return Err(e);
                    },
                }
            },
            _ => {
                return Err(NetworkStateError::NotWireless(String::from_str(connection.id())));
            },
        }
        update_connection(connection, actions)
    }
}

/// Writes to one connection do not interleave. Each write holds the
/// connection and the queue exclusively from its first step to its last, so
/// of two writers one runs wholly before the other. When both are accepted,
/// the connection ends as the later write left it, and exactly two intents
/// were queued, in the order of the writes, each with the snapshot that its
/// own write committed.
pub proof fn lemma_writes_do_not_interleave(
    first: ConnectionView,
    second: ConnectionView,
    after_first: ConnectionView,
    after_second: ConnectionView,
    q0: &ActionQueue,
    q1: &ActionQueue,
    q2: &ActionQueue,
    r1: Result<(), NetworkStateError>,
    r2: Result<(), NetworkStateError>,
)
    requires
        !q0.is_closed(),
        committed(first, after_first, q0, q1, r1),
        committed(second, after_second, q1, q2, r2),
    ensures
        r1 is Ok,
        r2 is Ok,
        after_second == second,
        q2@ == q0@ + seq![
            ActionView::UpdateConnection(after_first),
            ActionView::UpdateConnection(after_second),
        ],
{
    assert(q2@ =~= q0@ + seq![
        ActionView::UpdateConnection(after_first),
        ActionView::UpdateConnection(after_second),
    ]);
}

/// A refused write leaves no trace: whatever is written after it finds the
/// connection and the queue as they were before it.
pub proof fn lemma_refused_write_leaves_no_trace(
    error: ErrorView,
    before: ConnectionView,
    after: ConnectionView,
    q0: &ActionQueue,
    q1: &ActionQueue,
    r: Result<(), NetworkStateError>,
)
    requires
        refused(error, before, after, q0, q1, r),
    ensures
        r is Err,
        after == before,
        q1@ == q0@,
        q1.is_closed() == q0.is_closed(),
{
}

} // verus!
