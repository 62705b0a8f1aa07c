//! Reading and writing the fields of an IP configuration as text.
//!
//! The address list is written best-effort: entries that do not read as an
//! address with a prefix are left out and reported. The nameserver list, the
//! gateway and the method are strict: one malformed value refuses the whole
//! write and leaves the configuration as it was.
use crate::address::{
    lemma_prefixed_round_trip, parse_address, IpAddress, IpAddressError, IpFamily, Ipv4Addr,
};
use crate::ipv6::{lemma_ipv4_text_is_no_ipv6, lemma_ipv6_text_is_no_ipv4, Ipv6Addr};
use crate::error::{ErrorView, NetworkStateError};
use crate::model::{IpConfig, IpConfigView};
use crate::text::view_each;
use crate::types::IpMethod;
use vstd::prelude::*;

verus! {

/// An entry of an address list that was left out, with the reason.
#[derive(Debug, PartialEq, Eq)]
pub struct RejectedEntry {
    pub entry: String,
    pub reason: IpAddressError,
}

/// A rejected entry as a mathematical value.
pub struct RejectedView {
    pub entry: Seq<char>,
    pub reason: IpAddressError,
}

impl View for RejectedEntry {
    type V = RejectedView;

    open spec fn view(&self) -> RejectedView {
        RejectedView { entry: self.entry@, reason: self.reason }
    }
}

/// The canonical texts of a list of addresses with prefixes.
pub open spec fn address_texts<A: IpFamily>(items: Seq<IpAddress<A>>) -> Seq<Seq<char>> {
    Seq::new(items.len(), |i: int| items[i].text())
}

/// The canonical texts of a list of addresses.
pub open spec fn server_texts<A: IpFamily>(items: Seq<A>) -> Seq<Seq<char>> {
    Seq::new(items.len(), |i: int| items[i].text())
}

/// The addresses that the entries denote, in the order of the entries;
/// entries that denote none are passed over.
pub open spec fn parsed_addresses<A: IpFamily>(entries: Seq<Seq<char>>) -> Seq<IpAddress<A>>
    decreases entries.len(),
{
    if entries.len() == 0 {
        Seq::empty()
    } else {
        let init = parsed_addresses::<A>(entries.drop_last());
        match IpAddress::<A>::from_text(entries.last()) {
            Ok(a) => init.push(a),
            Err(_) => init,
        }
    }
}

/// The entries that denote no address, in the order of the entries, each
/// with the reason.
pub open spec fn rejected_entries<A: IpFamily>(entries: Seq<Seq<char>>) -> Seq<RejectedView>
    decreases entries.len(),
{
    if entries.len() == 0 {
        Seq::empty()
    } else {
        let init = rejected_entries::<A>(entries.drop_last());
        match IpAddress::<A>::from_text(entries.last()) {
            Ok(_) => init,
            Err(reason) => init.push(RejectedView { entry: entries.last(), reason }),
        }
    }
}

/// The position of the first entry at or after `from` that denotes no
/// address of the family.
pub open spec fn first_invalid<A: IpFamily>(entries: Seq<Seq<char>>, from: int) -> Option<int>
    decreases entries.len() - from,
{
    if from < 0 || from >= entries.len() {
        None
    } else if A::from_text(entries[from]) is None {
        Some(from)
    } else {
        first_invalid::<A>(entries, from + 1)
    }
}

/// The addresses that the entries denote, one for one.
pub open spec fn parsed_servers<A: IpFamily>(entries: Seq<Seq<char>>) -> Seq<A> {
    Seq::new(entries.len(), |i: int| A::from_text(entries[i])->0)
}

/// What a gateway text stands for: the empty text for no gateway, any other
/// text for the address it denotes, if it denotes one.
pub open spec fn parsed_gateway<A: IpFamily>(text: Seq<char>) -> Option<Option<A>> {
    if text.len() == 0 {
        Some(None)
    } else {
        match A::from_text(text) {
            Some(a) => Some(Some(a)),
            None => None,
        }
    }
}

/// The text of a gateway: empty where there is none.
pub open spec fn gateway_text<A: IpFamily>(gateway: Option<A>) -> Seq<char> {
    match gateway {
        Some(a) => a.text(),
        None => Seq::empty(),
    }
}

/// Where no entry is invalid from `from` on, every entry from there on
/// denotes an address.
pub proof fn lemma_first_invalid_none<A: IpFamily>(entries: Seq<Seq<char>>, from: int)
    requires
        0 <= from,
        first_invalid::<A>(entries, from) is None,
    ensures
        forall|i: int| from <= i < entries.len() ==> (#[trigger] A::from_text(entries[i])) is Some,
    decreases entries.len() - from,
{
    if from < entries.len() {
        lemma_first_invalid_none::<A>(entries, from + 1);
    }
}

/// The empty text clears the gateway, in either family.
pub proof fn lemma_empty_gateway_clears<A: IpFamily>()
    ensures
        parsed_gateway::<A>(Seq::<char>::empty()) == Some(None::<A>),
{
}

/// What is read as the gateway can be written back and gives the same
/// gateway.
pub proof fn lemma_gateway_read_back<A: IpFamily>(gateway: Option<A>)
    ensures
        parsed_gateway::<A>(gateway_text(gateway)) == Some(gateway),
{
    match gateway {
        Some(a) => {
            A::lemma_text(a);
        },
        None => {},
    }
}

/// A gateway of the other family is refused: the text of an IPv6 address is
/// no IPv4 gateway, and the text of an IPv4 address is no IPv6 gateway.
pub proof fn lemma_foreign_gateway_refused(v4: Ipv4Addr, v6: Ipv6Addr)
    ensures
        parsed_gateway::<Ipv4Addr>(v6.text()) is None,
        parsed_gateway::<Ipv6Addr>(v4.text()) is None,
{
    lemma_ipv6_text_is_no_ipv4(v6);
    lemma_ipv4_text_is_no_ipv6(v4);
    Ipv4Addr::lemma_text(v4);
    Ipv6Addr::lemma_text(v6);
}

/// What is read as the address list can be written back: every entry is
/// kept, none is rejected, and the addresses are the same.
pub proof fn lemma_addresses_read_back<A: IpFamily>(items: Seq<IpAddress<A>>)
    ensures
        parsed_addresses::<A>(address_texts(items)) == items,
        rejected_entries::<A>(address_texts(items)) == Seq::<RejectedView>::empty(),
    decreases items.len(),
{
    let texts = address_texts(items);
    if items.len() == 0 {
        assert(parsed_addresses::<A>(texts) =~= items);
    } else {
        lemma_addresses_read_back::<A>(items.drop_last());
        lemma_prefixed_round_trip::<A>(items.last());
        assert(texts.drop_last() =~= address_texts(items.drop_last()));
        assert(texts.last() == items.last().text());
        assert(items.drop_last().push(items.last()) =~= items);
    }
}

/// What is read as the nameserver list can be written back: no entry is
/// invalid and the nameservers are the same.
pub proof fn lemma_nameservers_read_back<A: IpFamily>(items: Seq<A>)
    ensures
        first_invalid::<A>(server_texts(items), 0) is None,
        parsed_servers::<A>(server_texts(items)) == items,
{
    let texts = server_texts(items);
    assert forall|i: int| 0 <= i < items.len() implies A::from_text(#[trigger] texts[i]) == Some(
        items[i],
    ) by {
        A::lemma_text(items[i]);
    }
    lemma_no_invalid::<A>(texts, 0);
    assert(parsed_servers::<A>(texts) =~= items);
}

/// Where every entry from `from` on denotes an address, none is invalid.
pub proof fn lemma_no_invalid<A: IpFamily>(entries: Seq<Seq<char>>, from: int)
    requires
        0 <= from,
        forall|i: int| from <= i < entries.len() ==> A::from_text(#[trigger] entries[i]) is Some,
    ensures
        first_invalid::<A>(entries, from) is None,
    decreases entries.len() - from,
{
    if from < entries.len() {
        assert(A::from_text(entries[from]) is Some);
        lemma_no_invalid::<A>(entries, from + 1);
    }
}

impl<A: IpFamily> IpConfig<A> {
    /// The configuration of a new connection: nothing set, method disabled.
    pub fn new() -> (r: Self)
        ensures
            r@ == IpConfigView::<A>::empty(),
    {
        let r = IpConfig {
            addresses: Vec::new(),
            method: IpMethod::Disabled,
            nameservers: Vec::new(),
            gateway: None,
        };
        assert(r@.addresses =~= Seq::empty());
        assert(r@.nameservers =~= Seq::empty());
        r
    }

    /// The addresses, each as `address/prefix`.
    pub fn addresses(&self) -> (r: Vec<String>)
        ensures
            view_each(r@) == address_texts(self@.addresses),
    {
        let mut r: Vec<String> = Vec::new();
        let mut i: usize = 0;
        while i < self.addresses.len()
            invariant
                i <= self.addresses.len(),
                r.len() == i,
                forall|j: int| 0 <= j < i ==> r[j]@ == self.addresses[j].text(),
            decreases self.addresses.len() - i,
        {
            r.push(self.addresses[i].to_string());
            i = i + 1;
        }
        assert(view_each(r@) =~= address_texts(self@.addresses));
        r
    }

    /// Replaces the addresses by those that the entries denote. An entry that
    /// denotes none is left out and returned with the reason; the write
    /// itself never fails.
    pub fn set_addresses(&mut self, entries: &Vec<String>) -> (rejected: Vec<RejectedEntry>)
        ensures
            final(self)@ == (IpConfigView {
                addresses: parsed_addresses::<A>(view_each(entries@)),
                ..old(self)@
            }),
            view_each(rejected@) == rejected_entries::<A>(view_each(entries@)),
    {
        let ghost texts = view_each(entries@);
        let mut parsed: Vec<IpAddress<A>> = Vec::new();
        let mut rejected: Vec<RejectedEntry> = Vec::new();
        let mut i: usize = 0;
        assert(texts.take(0) =~= Seq::<Seq<char>>::empty());
        assert(view_each(rejected@) =~= Seq::<RejectedView>::empty());
        while i < entries.len()
            invariant
                i <= entries.len(),
                texts == view_each(entries@),
                parsed@ == parsed_addresses::<A>(texts.take(i as int)),
                view_each(rejected@) == rejected_entries::<A>(texts.take(i as int)),
            decreases entries.len() - i,
        {
            let ghost done = view_each(rejected@);
            proof {
                assert(texts.take(i + 1).drop_last() =~= texts.take(i as int));
                assert(texts.take(i + 1).last() == entries[i as int]@);
            }
            match IpAddress::<A>::parse(entries[i].as_str()) {
                Ok(address) => {
                    parsed.push(address);
                },
                Err(reason) => {
                    rejected.push(RejectedEntry { entry: entries[i].clone(), reason });
                    assert(view_each(rejected@) =~= done.push(
                        RejectedView { entry: entries[i as int]@, reason },
                    ));
                },
            }
            i = i + 1;
        }
        assert(texts.take(i as int) =~= texts);
        self.addresses = parsed;
        rejected
    }

    /// The word for the method.
    pub fn method(&self) -> (r: String)
        ensures
            r@ == self@.method.text(),
    {
        String::from_str(self.method.as_str())
    }

    /// Sets the method that the word names. Any other word is refused and
    /// the configuration stays as it was.
    pub fn set_method(&mut self, method: &str) -> (r: Result<(), NetworkStateError>)
        ensures
            match r {
                Ok(_) => IpMethod::from_text(method@) is Some && final(self)@ == (IpConfigView {
                    method: IpMethod::from_text(method@)->0,
                    ..old(self)@
                }),
                Err(e) => IpMethod::from_text(method@) is None && e@ == ErrorView::InvalidIpMethod(
                    method@,
                ) && *final(self) == *old(self),
            },
    {
        match IpMethod::parse(method) {
            Ok(m) => {
                self.method = m;
                Ok(())
            },
            Err(e) => Err(e),
        }
    }

    /// The nameservers, each as the text of its address.
    pub fn nameservers(&self) -> (r: Vec<String>)
        ensures
            view_each(r@) == server_texts(self@.nameservers),
    {
        let mut r: Vec<String> = Vec::new();
        let mut i: usize = 0;
        while i < self.nameservers.len()
            invariant
                i <= self.nameservers.len(),
                r.len() == i,
                forall|j: int| 0 <= j < i ==> r[j]@ == self.nameservers[j].text(),
            decreases self.nameservers.len() - i,
        {
            r.push(self.nameservers[i].to_string());
            i = i + 1;
        }
        assert(view_each(r@) =~= server_texts(self@.nameservers));
        r
    }

    /// Replaces the nameservers by those that the entries denote. If any
    /// entry denotes no address of the family the write is refused, with the
    /// first such entry, and the configuration stays as it was.
    pub fn set_nameservers(&mut self, entries: &Vec<String>) -> (r: Result<
        (),
        NetworkStateError,
    >)
        ensures
            match r {
                Ok(_) => first_invalid::<A>(view_each(entries@), 0) is None && final(self)@ == (
                IpConfigView {
                    nameservers: parsed_servers::<A>(view_each(entries@)),
                    ..old(self)@
                }),
                Err(e) => first_invalid::<A>(view_each(entries@), 0) matches Some(k) && e@
                    == ErrorView::InvalidIpAddr(entries[k]@) && *final(self) == *old(self),
            },
    {
        let ghost texts = view_each(entries@);
        let mut parsed: Vec<A> = Vec::new();
        let mut i: usize = 0;
        while i < entries.len()
            invariant
                i <= entries.len(),
                texts == view_each(entries@),
                first_invalid::<A>(texts, 0) == first_invalid::<A>(texts, i as int),
                parsed.len() == i,
                forall|j: int| 0 <= j < i ==> A::from_text(texts[j]) == Some(#[trigger] parsed[j]),
            decreases entries.len() - i,
        {
            assert(texts[i as int] == entries[i as int]@);
            match parse_address::<A>(entries[i].as_str()) {
                Some(a) => {
                    parsed.push(a);
                },
                None => {
                    return Err(NetworkStateError::InvalidIpAddr(entries[i].clone()));
                },
            }
            i = i + 1;
        }
        assert(parsed@ =~= parsed_servers::<A>(texts));
        self.nameservers = parsed;
        Ok(())
    }

    /// The text of the gateway; empty where there is none.
    pub fn gateway(&self) -> (r: String)
        ensures
            r@ == gateway_text(self@.gateway),
    {
        match &self.gateway {
            Some(a) => a.to_string(),
            None => String::new(),
        }
    }

    /// Sets the gateway. The empty text clears it, whatever it was. Any
    /// other text must denote an address of the family; if it does not, the
    /// write is refused and the configuration stays as it was.
    pub fn set_gateway(&mut self, gateway: &str) -> (r: Result<(), NetworkStateError>)
        ensures
            match r {
                Ok(_) => parsed_gateway::<A>(gateway@) is Some && final(self)@ == (IpConfigView {
                    gateway: parsed_gateway::<A>(gateway@)->0,
                    ..old(self)@
                }),
                Err(e) => parsed_gateway::<A>(gateway@) is None && e@ == ErrorView::InvalidIpAddr(
                    gateway@,
                ) && *final(self) == *old(self),
            },
    {
        if gateway.is_empty() {
            self.gateway = None;
            Ok(())
        } else {
            match parse_address::<A>(gateway) {
                Some(a) => {
                    self.gateway = Some(a);
                    Ok(())
                },
                None => Err(NetworkStateError::InvalidIpAddr(String::from_str(gateway))),
            }
        }
    }
}

} // verus!
