//! What is known of the machine's place in its network.
//!
//! Discovery itself is done elsewhere. Here the addresses that it found, the
//! default route and the interfaces that the system lists are put together:
//! the route names the gateway, and the interface that bears the local IPv4
//! address gives the link's name, mask, prefix, broadcast address and hardware
//! address.

use vstd::prelude::*;
use vstd::utf8::*;
use crate::route::{gateway_from_route, gateway_of};
use crate::subnet::{
    broadcast_of, calculate_broadcast_address, calculate_network_prefix, dotted,
    lemma_quad_of_dotted, network_of, render_quad,
};
use crate::text::str_eq;

verus! {

/// The machine's addresses and the details of the link that bears the local
/// IPv4 address.
#[derive(Debug, Clone, PartialEq, Eq)]
pub struct NetworkInfo {
    pub local_ipv4: Option<String>,
    pub local_ipv6: Option<String>,
    pub public_ipv4: Option<String>,
    pub public_ipv6: Option<String>,
    pub subnet_mask: Option<String>,
    pub gateway: Option<String>,
    pub network_prefix: Option<String>,
    pub interface_name: Option<String>,
    pub mac_address: Option<String>,
    pub broadcast_address: Option<String>,
}

/// One address of an interface.
#[derive(Debug, Clone, Copy, PartialEq, Eq)]
pub enum InterfaceAddr {
    /// An IPv4 address, with its mask where the system reports one.
    V4 { ip: [u8; 4], netmask: Option<[u8; 4]> },
    /// An IPv6 address; nothing of it is used.
    V6,
}

/// One network interface, as the system lists it.
#[derive(Debug, Clone, PartialEq, Eq)]
pub struct InterfaceRecord {
    pub name: String,
    pub mac_addr: Option<String>,
    pub addrs: Vec<InterfaceAddr>,
}

/// What an optional text holds.
pub open spec fn text_of(text: Option<String>) -> Option<Seq<char>> {
    match text {
        Some(s) => Some(s@),
        None => None,
    }
}

/// The details of a link, as mathematical values.
pub struct LinkView {
    pub interface_name: Option<Seq<char>>,
    pub subnet_mask: Option<Seq<char>>,
    pub network_prefix: Option<Seq<char>>,
    pub broadcast_address: Option<Seq<char>>,
    pub mac_address: Option<Seq<char>>,
}

/// What a `NetworkInfo` holds, as mathematical values.
pub struct NetworkInfoView {
    pub local_ipv4: Option<Seq<char>>,
    pub local_ipv6: Option<Seq<char>>,
    pub public_ipv4: Option<Seq<char>>,
    pub public_ipv6: Option<Seq<char>>,
    pub gateway: Option<Seq<char>>,
    pub link: LinkView,
}

impl View for NetworkInfo {
    type V = NetworkInfoView;

    open spec fn view(&self) -> NetworkInfoView {
        NetworkInfoView {
            local_ipv4: text_of(self.local_ipv4),
            local_ipv6: text_of(self.local_ipv6),
            public_ipv4: text_of(self.public_ipv4),
            public_ipv6: text_of(self.public_ipv6),
            gateway: text_of(self.gateway),
            link: LinkView {
                interface_name: text_of(self.interface_name),
                subnet_mask: text_of(self.subnet_mask),
                network_prefix: text_of(self.network_prefix),
                broadcast_address: text_of(self.broadcast_address),
                mac_address: text_of(self.mac_address),
            },
        }
    }
}

impl LinkView {
    /// A link of which nothing is known.
    pub open spec fn unknown() -> LinkView {
        LinkView {
            interface_name: None,
            subnet_mask: None,
            network_prefix: None,
            broadcast_address: None,
            mac_address: None,
        }
    }

    /// The link after one address of an interface was looked at. An IPv4
    /// address that is the local one names the interface; its mask, where
    /// there is one, gives mask, prefix and broadcast address; the interface's
    /// hardware address, where there is one, is taken over. What the address
    /// does not give stays as it was.
    pub open spec fn after_addr(
        self,
        name: Seq<char>,
        mac: Option<Seq<char>>,
        addr: InterfaceAddr,
        local_ipv4: Option<Seq<char>>,
    ) -> LinkView {
        match addr {
            InterfaceAddr::V4 { ip, netmask } => if local_ipv4 == Some(dotted(ip@)) {
                let named = LinkView { interface_name: Some(name), ..self };
                let masked = match netmask {
                    Some(mask) => LinkView {
                        subnet_mask: Some(dotted(mask@)),
                        network_prefix: Some(dotted(network_of(ip@, mask@))),
                        broadcast_address: Some(dotted(broadcast_of(ip@, mask@))),
                        ..named
                    },
                    None => named,
                };
                match mac {
                    Some(address) => LinkView { mac_address: Some(address), ..masked },
                    None => masked,
                }
            } else {
                self
            },
            InterfaceAddr::V6 => self,
        }
    }

    /// The link after a run of addresses of one interface, first to last.
    pub open spec fn after_addrs(
        self,
        name: Seq<char>,
        mac: Option<Seq<char>>,
        addrs: Seq<InterfaceAddr>,
        local_ipv4: Option<Seq<char>>,
    ) -> LinkView
        decreases addrs.len(),
    {
        if addrs.len() == 0 {
            self
        } else {
            self.after_addrs(name, mac, addrs.drop_last(), local_ipv4).after_addr(
                name,
                mac,
                addrs.last(),
                local_ipv4,
            )
        }
    }

    /// The link after a run of interfaces, first to last. Loopback interfaces
    /// and interfaces without an address are passed over.
    pub open spec fn after_interfaces(
        self,
        interfaces: Seq<InterfaceRecord>,
        local_ipv4: Option<Seq<char>>,
    ) -> LinkView
        decreases interfaces.len(),
    {
        if interfaces.len() == 0 {
            self
        } else {
            let before = self.after_interfaces(interfaces.drop_last(), local_ipv4);
            let last = interfaces.last();
            if passed_over(last) {
                before
            } else {
                before.after_addrs(last.name@, text_of(last.mac_addr), last.addrs@, local_ipv4)
            }
        }
    }
}

/// An interface's name marks it as loopback when it starts with "lo".
pub open spec fn is_loopback_name(name: Seq<char>) -> bool {
    let bytes = encode_utf8(name);
    bytes.len() >= 2 && bytes[0] == 0x6C && bytes[1] == 0x6F
}

/// The interface is not looked at: it is loopback, or has no address.
pub open spec fn passed_over(interface: InterfaceRecord) -> bool {
    is_loopback_name(interface.name@) || interface.addrs@.len() == 0
}

/// Tells whether an interface is passed over.
fn is_passed_over(interface: &InterfaceRecord) -> (skip: bool)
    ensures
        skip == passed_over(*interface),
{
    let name = interface.name.as_str().as_bytes();
    assert(name@ == encode_utf8(interface.name@));
    (name.len() >= 2 && name[0] == 0x6C && name[1] == 0x6F) || interface.addrs.len() == 0
}

/// Takes one address of an interface into the information gathered so far.
fn take_addr(info: &mut NetworkInfo, interface: &InterfaceRecord, addr: &InterfaceAddr)
    ensures
        final(info)@ == (NetworkInfoView {
            link: old(info)@.link.after_addr(
                interface.name@,
                text_of(interface.mac_addr),
                *addr,
                old(info)@.local_ipv4,
            ),
            ..old(info)@
        }),
{
    match addr {
        InterfaceAddr::V4 { ip, netmask } => {
            let ip_text = render_quad(ip[0], ip[1], ip[2], ip[3]);
            assert(seq![ip[0], ip[1], ip[2], ip[3]] =~= ip@);
            let is_local = match &info.local_ipv4 {
                Some(local) => str_eq(local.as_str(), ip_text.as_str()),
                None => false,
            };
            if is_local {
                info.interface_name = Some(interface.name.clone());
                match netmask {
                    Some(mask) => {
                        let mask_text = render_quad(mask[0], mask[1], mask[2], mask[3]);
                        assert(seq![mask[0], mask[1], mask[2], mask[3]] =~= mask@);
                        proof {
                            lemma_quad_of_dotted(ip@);
                            lemma_quad_of_dotted(mask@);
                        }
                        info.network_prefix = calculate_network_prefix(
                            ip_text.as_str(),
                            mask_text.as_str(),
                        );
                        info.broadcast_address = calculate_broadcast_address(
                            ip_text.as_str(),
                            mask_text.as_str(),
                        );
                        info.subnet_mask = Some(mask_text);
                    },
                    None => {},
                }
                match &interface.mac_addr {
                    Some(mac) => {
                        info.mac_address = Some(mac.clone());
                    },
                    None => {},
                }
            }
        },
        InterfaceAddr::V6 => {},
    }
}

/// The gateway that the default route names, where the route is known and
/// names one.
pub open spec fn gateway_named(default_route: Option<Seq<char>>) -> Option<Seq<char>> {
    match default_route {
        Some(route) => gateway_of(route),
        None => None,
    }
}

/// Puts together what discovery found: the four addresses as they are, the
/// gateway that the default route names, where the system gave one, and the
/// details of the link that bears the local IPv4 address, gathered from the
/// interfaces in the order given.
pub fn get_network_info(
    local_ipv4: Option<String>,
    local_ipv6: Option<String>,
    public_ipv4: Option<String>,
    public_ipv6: Option<String>,
    default_route: Option<String>,
    interfaces: &Vec<InterfaceRecord>,
) -> (info: NetworkInfo)
    ensures
        info@ == (NetworkInfoView {
            local_ipv4: text_of(local_ipv4),
            local_ipv6: text_of(local_ipv6),
            public_ipv4: text_of(public_ipv4),
            public_ipv6: text_of(public_ipv6),
            gateway: gateway_named(text_of(default_route)),
            link: LinkView::unknown().after_interfaces(interfaces@, text_of(local_ipv4)),
        }),
{
    let ghost local = text_of(local_ipv4);
    let gateway = match &default_route {
        Some(route) => gateway_from_route(route.as_str()),
        None => None,
    };
    let mut info = NetworkInfo {
        local_ipv4,
        local_ipv6,
        public_ipv4,
        public_ipv6,
        subnet_mask: None,
        gateway,
        network_prefix: None,
        interface_name: None,
        mac_address: None,
        broadcast_address: None,
    };
    let ghost start = info@;
    assert(start.link == LinkView::unknown());
    let mut i: usize = 0;
    while i < interfaces.len()
        invariant
            i <= interfaces@.len(),
            start.local_ipv4 == local,
            info@ == (NetworkInfoView {
                link: LinkView::unknown().after_interfaces(interfaces@.take(i as int), local),
                ..start
            }),
        decreases interfaces@.len() - i,
    {
        let interface = &interfaces[i];
        let ghost before = info@.link;
        assert(interfaces@.take(i + 1).drop_last() == interfaces@.take(i as int));
        assert(interfaces@.take(i + 1).last() == *interface);
        if !is_passed_over(interface) {
            let mut j: usize = 0;
            while j < interface.addrs.len()
                invariant
                    j <= interface.addrs@.len(),
                    start.local_ipv4 == local,
                    info@ == (NetworkInfoView {
                        link: before.after_addrs(
                            interface.name@,
                            text_of(interface.mac_addr),
                            interface.addrs@.take(j as int),
                            local,
                        ),
                        ..start
                    }),
                decreases interface.addrs@.len() - j,
            {
                assert(interface.addrs@.take(j + 1).drop_last() == interface.addrs@.take(j as int));
                assert(interface.addrs@.take(j + 1).last() == interface.addrs@[j as int]);
                take_addr(&mut info, interface, &interface.addrs[j]);
                j += 1;
            }
            assert(interface.addrs@.take(j as int) == interface.addrs@);
        }
        i += 1;
    }
    assert(interfaces@.take(i as int) == interfaces@);
    info
}

/// The address is an IPv4 address that reads as the local one.
pub open spec fn is_local_addr(addr: InterfaceAddr, local_ipv4: Option<Seq<char>>) -> bool {
    match addr {
        InterfaceAddr::V4 { ip, netmask } => local_ipv4 == Some(dotted(ip@)),
        InterfaceAddr::V6 => false,
    }
}

/// The interface is looked at and one of its addresses is the local one.
pub open spec fn bears_local_addr(interface: InterfaceRecord, local_ipv4: Option<Seq<char>>) -> bool {
    !passed_over(interface) && exists|j: int|
        0 <= j < interface.addrs@.len() && is_local_addr(
            #[trigger] interface.addrs@[j],
            local_ipv4,
        )
}

/// A run of addresses of one interface names the link after that interface
/// where one of them is the local address, and leaves the name alone
/// otherwise.
pub proof fn lemma_addrs_name_the_link(
    link: LinkView,
    name: Seq<char>,
    mac: Option<Seq<char>>,
    addrs: Seq<InterfaceAddr>,
    local_ipv4: Option<Seq<char>>,
)
    ensures
        link.after_addrs(name, mac, addrs, local_ipv4).interface_name == (if exists|j: int|
            0 <= j < addrs.len() && is_local_addr(#[trigger] addrs[j], local_ipv4) {
            Some(name)
        } else {
            link.interface_name
        }),
    decreases addrs.len(),
{
    if addrs.len() > 0 {
        let front = addrs.drop_last();
        lemma_addrs_name_the_link(link, name, mac, front, local_ipv4);
        if is_local_addr(addrs.last(), local_ipv4) {
            assert(is_local_addr(addrs[addrs.len() - 1], local_ipv4));
        } else if exists|j: int| 0 <= j < front.len() && is_local_addr(#[trigger] front[j], local_ipv4) {
            let j = choose|j: int|
                0 <= j < front.len() && is_local_addr(#[trigger] front[j], local_ipv4);
            assert(is_local_addr(addrs[j], local_ipv4));
        } else {
            assert forall|j: int| 0 <= j < addrs.len() implies !is_local_addr(
                #[trigger] addrs[j],
                local_ipv4,
            ) by {
                if j < front.len() {
                    assert(front[j] == addrs[j]);
                }
            }
        }
    }
}

/// The link is named exactly where some interface that is looked at bears
/// the local address.
pub proof fn lemma_link_named_iff_local_found(
    interfaces: Seq<InterfaceRecord>,
    local_ipv4: Option<Seq<char>>,
)
    ensures
        LinkView::unknown().after_interfaces(interfaces, local_ipv4).interface_name is Some
            <==> exists|i: int|
            0 <= i < interfaces.len() && bears_local_addr(#[trigger] interfaces[i], local_ipv4),
    decreases interfaces.len(),
{
    if interfaces.len() > 0 {
        let front = interfaces.drop_last();
        let last = interfaces.last();
        let before = LinkView::unknown().after_interfaces(front, local_ipv4);
        lemma_link_named_iff_local_found(front, local_ipv4);
        if !passed_over(last) {
            lemma_addrs_name_the_link(
                before,
                last.name@,
                text_of(last.mac_addr),
                last.addrs@,
                local_ipv4,
            );
        }
        if bears_local_addr(last, local_ipv4) {
            assert(bears_local_addr(interfaces[interfaces.len() - 1], local_ipv4));
        } else if exists|i: int|
            0 <= i < front.len() && bears_local_addr(#[trigger] front[i], local_ipv4) {
            let i = choose|i: int|
                0 <= i < front.len() && bears_local_addr(#[trigger] front[i], local_ipv4);
            assert(bears_local_addr(interfaces[i], local_ipv4));
        } else {
            assert forall|i: int| 0 <= i < interfaces.len() implies !bears_local_addr(
                #[trigger] interfaces[i],
                local_ipv4,
            ) by {
                if i < front.len() {
                    assert(front[i] == interfaces[i]);
                }
            }
        }
    }
}

/// A reply of an address service is usable as a public IPv4 address when it
/// is not empty.
pub open spec fn usable_ipv4_reply(reply: Seq<char>) -> bool {
    reply.len() > 0
}

/// A reply of an address service is usable as a public IPv6 address when it
/// is not empty and holds a colon.
pub open spec fn usable_ipv6_reply(reply: Seq<char>) -> bool {
    reply.len() > 0 && exists|i: int| 0 <= i < encode_utf8(reply).len() && #[trigger] encode_utf8(
        reply,
    )[i] == 0x3A
}

/// Tells whether a service's reply, already trimmed, is usable as a public
/// IPv4 address.
pub fn is_usable_ipv4_reply(reply: &str) -> (usable: bool)
    ensures
        usable == usable_ipv4_reply(reply@),
{
    !reply.is_empty()
}

/// Tells whether a service's reply, already trimmed, is usable as a public
/// IPv6 address.
pub fn is_usable_ipv6_reply(reply: &str) -> (usable: bool)
    ensures
        usable == usable_ipv6_reply(reply@),
{
    if reply.is_empty() {
        return false;
    }
    let bytes = reply.as_bytes();
    assert(bytes@ == encode_utf8(reply@));
    let mut i: usize = 0;
    while i < bytes.len()
        invariant
            i <= bytes@.len(),
            bytes@ == encode_utf8(reply@),
            forall|k: int| 0 <= k < i ==> bytes@[k] != 0x3A,
        decreases bytes@.len() - i,
    {
        if bytes[i] == 0x3A {
            return true;
        }
        i += 1;
    }
    false
}

} // verus!
