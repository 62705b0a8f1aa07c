use agama_network::action::{Action, ActionQueue};
use agama_network::address::{IpAddress, IpAddressError, Ipv4Addr};
use agama_network::error::{ErrorKind, NetworkStateError};
use agama_network::interfaces::{
    update_connection, Connection, Connections, Device, Devices, Ipv4, Ipv6, Match, Wireless,
};
use agama_network::ip::RejectedEntry;
use agama_network::ipv6::Ipv6Addr;
use agama_network::model;
use agama_network::registry::ObjectsRegistry;
use agama_network::types::{DeviceType, IpMethod, SecurityProtocol, WirelessMode};

fn ethernet(id: &str) -> model::Connection {
    model::Connection::new(id.to_string(), DeviceType::Ethernet)
}

fn wireless(id: &str) -> model::Connection {
    model::Connection::new(id.to_string(), DeviceType::Wireless)
}

fn strings(items: &[&str]) -> Vec<String> {
    items.iter().map(|s| s.to_string()).collect()
}

fn snapshot(action: Option<Action>) -> model::Connection {
    match action {
        Some(Action::UpdateConnection(c)) => c,
        other => panic!("no update intent: {:?}", other),
    }
}

#[test]
fn a_new_connection_has_nothing_set() {
    let c = ethernet("eth0");
    assert_eq!(Connection::id(&c), "eth0");
    assert_eq!(Connection::interface(&c), "");
    assert_eq!(c.device_type(), DeviceType::Ethernet);
    assert_eq!(Ipv4::addresses(&c), Vec::<String>::new());
    assert_eq!(Ipv4::method(&c), "disabled");
    assert_eq!(Ipv4::nameservers(&c), Vec::<String>::new());
    assert_eq!(Ipv4::gateway(&c), "");
    assert_eq!(Ipv6::method(&c), "disabled");
    assert_eq!(Ipv6::gateway(&c), "");
    assert_eq!(Match::driver(&c), Vec::<String>::new());
    assert_eq!(Match::kernel(&c), Vec::<String>::new());
    let w = wireless("wlan0");
    assert_eq!(w.device_type(), DeviceType::Wireless);
    assert_eq!(Wireless::ssid(&w), Ok(vec![]));
    assert_eq!(Wireless::mode(&w), Ok("infrastructure".to_string()));
    assert_eq!(Wireless::password(&w), Ok(String::new()));
    assert_eq!(Wireless::security(&w), Ok("none".to_string()));
    let l = model::Connection::new("lo".to_string(), DeviceType::Loopback);
    assert_eq!(l.device_type(), DeviceType::Loopback);
}

#[test]
fn setting_the_interface_queues_a_snapshot() {
    let mut c = ethernet("eth0");
    let mut q = ActionQueue::new();
    assert_eq!(Connection::set_interface(&mut c, &mut q, "enp1s0"), Ok(()));
    assert_eq!(Connection::interface(&c), "enp1s0");
    assert_eq!(Connection::id(&c), "eth0");
    assert_eq!(q.len(), 1);
    let sent = snapshot(q.dequeue());
    assert_eq!(sent.id(), "eth0");
    assert_eq!(sent.interface(), "enp1s0");
    assert!(q.is_empty());
}

#[test]
fn invalid_nameservers_leave_the_previous_value() {
    let mut c = ethernet("eth0");
    let mut q = ActionQueue::new();
    assert_eq!(Ipv4::set_nameservers(&mut c, &mut q, strings(&["1.1.1.1", "8.8.8.8"])), Ok(()));
    assert_eq!(q.len(), 1);
    let r = Ipv4::set_nameservers(&mut c, &mut q, strings(&["9.9.9.9", "not-an-ip", "also bad"]));
    assert_eq!(r, Err(NetworkStateError::InvalidIpAddr("not-an-ip".to_string())));
    assert_eq!(r.unwrap_err().kind(), ErrorKind::Validation);
    assert_eq!(Ipv4::nameservers(&c), strings(&["1.1.1.1", "8.8.8.8"]));
    assert_eq!(q.len(), 1);
    let r = Ipv6::set_nameservers(&mut c, &mut q, strings(&["2001:4860:4860::8888", "1.1.1.1"]));
    assert_eq!(r, Err(NetworkStateError::InvalidIpAddr("1.1.1.1".to_string())));
    assert_eq!(Ipv6::nameservers(&c), Vec::<String>::new());
    assert_eq!(q.len(), 1);
}

#[test]
fn nameservers_are_kept_in_order() {
    let mut c = ethernet("eth0");
    let mut q = ActionQueue::new();
    assert_eq!(Ipv6::set_nameservers(&mut c, &mut q, strings(&["2001:DB8:0:0::1", "::1"])), Ok(()));
    assert_eq!(Ipv6::nameservers(&c), strings(&["2001:db8::1", "::1"]));
    assert_eq!(Ipv6::set_nameservers(&mut c, &mut q, vec![]), Ok(()));
    assert_eq!(Ipv6::nameservers(&c), Vec::<String>::new());
    assert_eq!(q.len(), 2);
}

#[test]
fn an_address_list_keeps_its_valid_entries() {
    let mut c = ethernet("eth0");
    let mut q = ActionQueue::new();
    let r = Ipv4::set_addresses(&mut c, &mut q, strings(&["192.168.0.10/24", "not-an-address"]));
    assert_eq!(
        r,
        Ok(vec![RejectedEntry {
            entry: "not-an-address".to_string(),
            reason: IpAddressError::MissingPrefix,
        }])
    );
    assert_eq!(Ipv4::addresses(&c), strings(&["192.168.0.10/24"]));
    assert_eq!(
        c.base().ipv4.addresses,
        vec![IpAddress { addr: Ipv4Addr { a: 192, b: 168, c: 0, d: 10 }, prefix: 24 }]
    );
    assert_eq!(q.len(), 1);
    let sent = snapshot(q.dequeue());
    assert_eq!(Ipv4::addresses(&sent), strings(&["192.168.0.10/24"]));
}

#[test]
fn an_address_list_may_lose_every_entry() {
    let mut c = ethernet("eth0");
    let mut q = ActionQueue::new();
    Ipv4::set_addresses(&mut c, &mut q, strings(&["10.0.0.1/8"])).unwrap();
    let r = Ipv4::set_addresses(
        &mut c,
        &mut q,
        strings(&["10.0.0.300/8", "10.0.0.2/x", "::1/64", "10.0.0.3"]),
    )
    .unwrap();
    let reasons: Vec<IpAddressError> = r.iter().map(|e| e.reason).collect();
    assert_eq!(
        reasons,
        vec![
            IpAddressError::InvalidAddress,
            IpAddressError::InvalidPrefix,
            IpAddressError::InvalidAddress,
            IpAddressError::MissingPrefix,
        ]
    );
    let entries: Vec<&str> = r.iter().map(|e| e.entry.as_str()).collect();
    assert_eq!(entries, vec!["10.0.0.300/8", "10.0.0.2/x", "::1/64", "10.0.0.3"]);
    assert_eq!(Ipv4::addresses(&c), Vec::<String>::new());
    assert_eq!(q.len(), 2);
}

#[test]
fn ipv6_addresses_are_kept_in_order_and_normal_form() {
    let mut c = ethernet("eth0");
    let mut q = ActionQueue::new();
    let r = Ipv6::set_addresses(
        &mut c,
        &mut q,
        strings(&["2001:0db8:0:0:0:0:0:1/064", "10.0.0.1/8", "FE80::1/+10"]),
    )
    .unwrap();
    assert_eq!(r.len(), 1);
    assert_eq!(r[0].entry, "10.0.0.1/8");
    assert_eq!(r[0].reason, IpAddressError::InvalidAddress);
    assert_eq!(Ipv6::addresses(&c), strings(&["2001:db8::1/64", "fe80::1/10"]));
    assert_eq!(Ipv4::addresses(&c), Vec::<String>::new());
}

#[test]
fn the_empty_gateway_clears() {
    let mut c = ethernet("eth0");
    let mut q = ActionQueue::new();
    assert_eq!(Ipv4::set_gateway(&mut c, &mut q, String::new()), Ok(()));
    assert_eq!(Ipv4::gateway(&c), "");
    assert_eq!(Ipv4::set_gateway(&mut c, &mut q, "192.168.0.1".to_string()), Ok(()));
    assert_eq!(Ipv4::gateway(&c), "192.168.0.1");
    assert_eq!(c.base().ipv4.gateway, Some(Ipv4Addr { a: 192, b: 168, c: 0, d: 1 }));
    assert_eq!(Ipv4::set_gateway(&mut c, &mut q, String::new()), Ok(()));
    assert_eq!(Ipv4::gateway(&c), "");
    assert_eq!(c.base().ipv4.gateway, None);
    assert_eq!(q.len(), 3);
}

#[test]
fn a_gateway_of_the_other_family_is_refused() {
    let mut c = ethernet("eth0");
    let mut q = ActionQueue::new();
    Ipv4::set_gateway(&mut c, &mut q, "10.0.0.1".to_string()).unwrap();
    let r = Ipv4::set_gateway(&mut c, &mut q, "2001:db8::1".to_string());
    assert_eq!(r, Err(NetworkStateError::InvalidIpAddr("2001:db8::1".to_string())));
    assert_eq!(Ipv4::gateway(&c), "10.0.0.1");
    let r = Ipv6::set_gateway(&mut c, &mut q, "10.0.0.1".to_string());
    assert_eq!(r, Err(NetworkStateError::InvalidIpAddr("10.0.0.1".to_string())));
    assert_eq!(Ipv6::gateway(&c), "");
    assert_eq!(Ipv6::set_gateway(&mut c, &mut q, "2001:DB8::1".to_string()), Ok(()));
    assert_eq!(Ipv6::gateway(&c), "2001:db8::1");
    assert_eq!(
        c.base().ipv6.gateway,
        Some(Ipv6Addr::from_segments(&vec![0x2001, 0xdb8, 0, 0, 0, 0, 0, 1]))
    );
    assert_eq!(q.len(), 2);
}

#[test]
fn the_method_is_one_of_four_words() {
    let mut c = ethernet("eth0");
    let mut q = ActionQueue::new();
    for word in ["auto", "manual", "link-local", "disabled"] {
        assert_eq!(Ipv4::set_method(&mut c, &mut q, word), Ok(()));
        assert_eq!(Ipv4::method(&c), word);
    }
    assert_eq!(c.base().ipv4.method, IpMethod::Disabled);
    assert_eq!(Ipv6::set_method(&mut c, &mut q, "auto"), Ok(()));
    assert_eq!(c.base().ipv6.method, IpMethod::Auto);
    assert_eq!(
        Ipv6::set_method(&mut c, &mut q, "static"),
        Err(NetworkStateError::InvalidIpMethod("static".to_string()))
    );
    assert_eq!(Ipv6::method(&c), "auto");
    assert_eq!(Ipv4::method(&c), "disabled");
    assert_eq!(q.len(), 5);
}

#[test]
fn match_lists_are_taken_as_given() {
    let mut c = ethernet("eth0");
    let mut q = ActionQueue::new();
    assert_eq!(Match::set_driver(&mut c, &mut q, strings(&["e1000", "", "e1000"])), Ok(()));
    assert_eq!(Match::set_path(&mut c, &mut q, strings(&["pci-0000:00:19.0"])), Ok(()));
    assert_eq!(Match::set_interface(&mut c, &mut q, strings(&["eth*", "!eth1"])), Ok(()));
    assert_eq!(Match::set_kernel(&mut c, &mut q, strings(&["ip=dhcp"])), Ok(()));
    assert_eq!(Match::driver(&c), strings(&["e1000", "", "e1000"]));
    assert_eq!(Match::path(&c), strings(&["pci-0000:00:19.0"]));
    assert_eq!(Match::interface(&c), strings(&["eth*", "!eth1"]));
    assert_eq!(Match::kernel(&c), strings(&["ip=dhcp"]));
    assert_eq!(q.len(), 4);
    let first = snapshot(q.dequeue());
    assert_eq!(Match::driver(&first), strings(&["e1000", "", "e1000"]));
    assert_eq!(Match::path(&first), Vec::<String>::new());
    let second = snapshot(q.dequeue());
    assert_eq!(Match::path(&second), strings(&["pci-0000:00:19.0"]));
    assert_eq!(Match::interface(&second), Vec::<String>::new());
}

#[test]
fn wireless_settings_are_read_and_written() {
    let mut c = wireless("wlan0");
    let mut q = ActionQueue::new();
    assert_eq!(Wireless::set_ssid(&mut c, &mut q, vec![0x41, 0x00, 0xff]), Ok(()));
    assert_eq!(Wireless::ssid(&c), Ok(vec![0x41, 0x00, 0xff]));
    assert_eq!(Wireless::set_mode(&mut c, &mut q, "ap"), Ok(()));
    assert_eq!(Wireless::mode(&c), Ok("ap".to_string()));
    assert_eq!(
        Wireless::set_mode(&mut c, &mut q, "station"),
        Err(NetworkStateError::InvalidWirelessMode("station".to_string()))
    );
    assert_eq!(Wireless::mode(&c), Ok("ap".to_string()));
    assert_eq!(Wireless::set_security(&mut c, &mut q, "wpa-psk"), Ok(()));
    assert_eq!(Wireless::security(&c), Ok("wpa-psk".to_string()));
    assert_eq!(
        Wireless::set_security(&mut c, &mut q, "wpa2"),
        Err(NetworkStateError::InvalidSecurityProtocol("wpa2".to_string()))
    );
    assert_eq!(Wireless::security(&c), Ok("wpa-psk".to_string()));
    assert_eq!(Wireless::set_password(&mut c, &mut q, "secret".to_string()), Ok(()));
    assert_eq!(Wireless::password(&c), Ok("secret".to_string()));
    assert_eq!(Wireless::set_password(&mut c, &mut q, String::new()), Ok(()));
    assert_eq!(Wireless::password(&c), Ok(String::new()));
    assert_eq!(q.len(), 5);
    match c.wireless() {
        Ok(w) => {
            assert_eq!(w.mode, WirelessMode::AP);
            assert_eq!(w.security, SecurityProtocol::WPA2);
            assert_eq!(w.password, None);
        }
        Err(e) => panic!("{:?}", e),
    }
    let first = snapshot(q.dequeue());
    assert_eq!(Wireless::ssid(&first), Ok(vec![0x41, 0x00, 0xff]));
    assert_eq!(Wireless::mode(&first), Ok("infrastructure".to_string()));
}

#[test]
fn wireless_settings_of_another_kind_fail_without_a_trace() {
    let mut c = ethernet("eth0");
    let mut q = ActionQueue::new();
    let not_wireless = || NetworkStateError::NotWireless("eth0".to_string());
    assert_eq!(Wireless::ssid(&c), Err(not_wireless()));
    assert_eq!(Wireless::mode(&c), Err(not_wireless()));
    assert_eq!(Wireless::password(&c), Err(not_wireless()));
    assert_eq!(Wireless::security(&c), Err(not_wireless()));
    assert_eq!(Wireless::set_ssid(&mut c, &mut q, vec![1]), Err(not_wireless()));
    assert_eq!(Wireless::set_mode(&mut c, &mut q, "ap"), Err(not_wireless()));
    assert_eq!(Wireless::set_mode(&mut c, &mut q, "bogus"), Err(not_wireless()));
    assert_eq!(Wireless::set_password(&mut c, &mut q, "x".to_string()), Err(not_wireless()));
    assert_eq!(Wireless::set_security(&mut c, &mut q, "sae"), Err(not_wireless()));
    assert_eq!(not_wireless().kind(), ErrorKind::WrongVariant);
    assert!(q.is_empty());
    assert_eq!(c.device_type(), DeviceType::Ethernet);
    assert!(c.wireless().is_err());
}

#[test]
fn a_closed_queue_is_reported_and_the_change_stays() {
    let mut c = ethernet("eth0");
    let mut q = ActionQueue::new();
    Connection::set_interface(&mut c, &mut q, "eth0").unwrap();
    q.close();
    assert!(q.closed());
    assert_eq!(
        Connection::set_interface(&mut c, &mut q, "eth1"),
        Err(NetworkStateError::BackendUnavailable)
    );
    assert_eq!(Connection::interface(&c), "eth1");
    assert_eq!(
        Ipv4::set_addresses(&mut c, &mut q, strings(&["1.2.3.4/8"])),
        Err(NetworkStateError::BackendUnavailable)
    );
    assert_eq!(Ipv4::addresses(&c), strings(&["1.2.3.4/8"]));
    assert_eq!(
        Ipv4::set_gateway(&mut c, &mut q, "nonsense".to_string()),
        Err(NetworkStateError::InvalidIpAddr("nonsense".to_string()))
    );
    assert_eq!(Connections::apply(&mut q), Err(NetworkStateError::BackendUnavailable));
    assert_eq!(update_connection(&c, &mut q), Err(NetworkStateError::BackendUnavailable));
    assert_eq!(q.len(), 1);
    assert_eq!(snapshot(q.dequeue()).interface(), "eth0");
    assert!(q.dequeue().is_none());
}

#[test]
fn two_writes_queue_two_snapshots_in_order() {
    let mut c = ethernet("eth0");
    let mut q = ActionQueue::new();
    Ipv4::set_method(&mut c, &mut q, "manual").unwrap();
    Ipv4::set_gateway(&mut c, &mut q, "10.0.0.254".to_string()).unwrap();
    assert_eq!(Ipv4::method(&c), "manual");
    assert_eq!(Ipv4::gateway(&c), "10.0.0.254");
    assert_eq!(q.len(), 2);
    let first = snapshot(q.dequeue());
    assert_eq!(Ipv4::method(&first), "manual");
    assert_eq!(Ipv4::gateway(&first), "");
    let second = snapshot(q.dequeue());
    assert_eq!(Ipv4::method(&second), "manual");
    assert_eq!(Ipv4::gateway(&second), "10.0.0.254");
    assert!(q.dequeue().is_none());
}

#[test]
fn intents_leave_the_queue_in_the_order_they_came() {
    let mut a = ethernet("a");
    let mut b = wireless("b");
    let mut q = ActionQueue::new();
    Connections::add_connection(&mut q, "c".to_string(), 2).unwrap();
    Connection::set_interface(&mut a, &mut q, "eth0").unwrap();
    Wireless::set_mode(&mut b, &mut q, "mesh").unwrap();
    Connections::remove_connection(&mut q, "a").unwrap();
    Connections::apply(&mut q).unwrap();
    assert_eq!(q.len(), 5);
    let taken = q.drain();
    assert!(q.is_empty());
    assert_eq!(taken.len(), 5);
    assert!(matches!(&taken[0], Action::AddConnection(id, DeviceType::Wireless) if id == "c"));
    assert!(matches!(&taken[1], Action::UpdateConnection(c) if c.id() == "a"));
    assert!(matches!(&taken[2], Action::UpdateConnection(c) if c.id() == "b"));
    assert!(matches!(&taken[3], Action::RemoveConnection(id) if id == "a"));
    assert!(matches!(&taken[4], Action::Apply));
    let again = taken[2].clone();
    assert!(matches!(again, Action::UpdateConnection(c) if Wireless::mode(&c) == Ok("mesh".to_string())));
}

#[test]
fn adding_a_connection_checks_its_type() {
    let mut q = ActionQueue::new();
    assert_eq!(Connections::add_connection(&mut q, "eth-test".to_string(), 1), Ok(()));
    assert_eq!(
        Connections::add_connection(&mut q, "bad".to_string(), 3),
        Err(NetworkStateError::InvalidDeviceType(3))
    );
    assert_eq!(q.len(), 1);
    assert!(matches!(q.dequeue(), Some(Action::AddConnection(id, DeviceType::Ethernet)) if id == "eth-test"));
}

#[test]
fn a_connection_is_found_once_it_is_registered() {
    let mut objects = ObjectsRegistry::new();
    let mut q = ActionQueue::new();
    assert_eq!(
        Connections::get_connection(&objects, "missing-id"),
        Err(NetworkStateError::UnknownConnection("missing-id".to_string()))
    );
    assert_eq!(
        NetworkStateError::UnknownConnection("missing-id".to_string()).kind(),
        ErrorKind::NotFound
    );
    assert_eq!(Connections::add_connection(&mut q, "eth-test".to_string(), 1), Ok(()));
    assert!(Connections::get_connection(&objects, "eth-test").is_err());
    objects.add_connection("eth-test", "/org/opensuse/Agama1/Network/connections/0");
    assert_eq!(
        Connections::get_connection(&objects, "eth-test"),
        Ok("/org/opensuse/Agama1/Network/connections/0".to_string())
    );
    assert!(Connections::get_connection(&objects, "eth-tes").is_err());
    assert!(objects.remove_connection("eth-test"));
    assert!(Connections::get_connection(&objects, "eth-test").is_err());
}

#[test]
fn only_object_paths_are_listed() {
    let mut objects = ObjectsRegistry::new();
    objects.add_device("lo", "/org/opensuse/Agama1/Network/devices/0");
    objects.add_device("bad1", "org/no/leading/slash");
    objects.add_device("eth0", "/org/opensuse/Agama1/Network/devices/1");
    objects.add_device("bad2", "/trailing/");
    objects.add_device("bad3", "/double//slash");
    objects.add_device("bad4", "/not-allowed");
    objects.add_device("bad5", "");
    objects.add_device("bad6", "/caf\u{e9}");
    objects.add_device("root", "/");
    objects.add_device("under", "/a_b/C9");
    assert_eq!(
        Devices::get_devices(&objects),
        vec![
            "/org/opensuse/Agama1/Network/devices/0",
            "/org/opensuse/Agama1/Network/devices/1",
            "/",
            "/a_b/C9",
        ]
    );
    assert_eq!(objects.devices_paths().len(), 10);
    assert_eq!(Connections::get_connections(&objects), Vec::<String>::new());
    objects.add_connection("eth0", "/c/0");
    objects.add_connection("wlan0", "c/1");
    objects.add_connection("wlan1", "/c/2");
    assert_eq!(Connections::get_connections(&objects), vec!["/c/0", "/c/2"]);
}

#[test]
fn a_device_is_read_only() {
    let device =
        Device::new(model::Device { name: "enp1s0".to_string(), type_: DeviceType::Ethernet });
    assert_eq!(device.name(), "enp1s0");
    assert_eq!(device.device_type(), 1);
    let lo = Device::new(model::Device { name: "lo".to_string(), type_: DeviceType::Loopback });
    assert_eq!(lo.device_type(), 0);
    let wlan = model::Device { name: "wlan0".to_string(), type_: DeviceType::Wireless };
    let copy = wlan.clone();
    assert_eq!(Device::new(wlan).device_type(), 2);
    assert_eq!(copy.name, "wlan0");
}
