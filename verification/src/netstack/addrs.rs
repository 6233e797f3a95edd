//! The addresses of the interface.

use vstd::prelude::*;

use super::sockets;
#[allow(unused_imports)]
use super::sockets::{holdable, interface_of, with_v4_route, with_v6_route, InterfaceView};
use crate::addr::Cidr;
#[allow(unused_imports)]
use crate::addr::{assignable_v4, assignable_v6};

verus! {

/// A host prefix is widened so that a gateway fits beside the host.
pub open spec fn widened_v4(p: u8) -> u8 {
    if p >= 31 {
        24
    } else {
        p
    }
}

/// A host prefix is widened so that a gateway fits beside the host.
pub open spec fn widened_v6(p: u8) -> u8 {
    if p >= 127 {
        64
    } else {
        p
    }
}

pub fn routable_prefix_v4(p: u8) -> (r: u8)
    ensures
        r == widened_v4(p),
{
    if p >= 31 {
        24
    } else {
        p
    }
}

pub fn routable_prefix_v6(p: u8) -> (r: u8)
    ensures
        r == widened_v6(p),
{
    if p >= 127 {
        64
    } else {
        p
    }
}

/// The gateway of a host: the first host of its last octet's range that is not
/// the host itself.
pub open spec fn gateway_v4(ip: u32) -> u32 {
    (ip - ip % 256 + (if ip % 256 == 1 {
        2int
    } else {
        1
    })) as u32
}

/// The gateway of a host: the first host of its last octet's range that is not
/// the host itself.
pub open spec fn gateway_v6(ip: u128) -> u128 {
    (ip - ip % 256 + (if ip % 256 == 1 {
        2int
    } else {
        1
    })) as u128
}

/// The list of these addresses, with prefixes that leave room for a gateway.
pub open spec fn addr_list(v4: Option<(u32, u8)>, v6: Option<(u128, u8)>) -> Seq<Cidr> {
    let first = match v4 {
        Some((ip, p)) => seq![Cidr::V4(ip, widened_v4(p))],
        None => Seq::empty(),
    };
    match v6 {
        Some((ip, p)) => first.push(Cidr::V6(ip, widened_v6(p))),
        None => first,
    }
}

/// The interface once these are its only addresses. A family that is given gets
/// the default route of its gateway; one that is not keeps the route it had.
pub open spec fn with_addrs(
    was: InterfaceView,
    v4: Option<(u32, u8)>,
    v6: Option<(u128, u8)>,
) -> InterfaceView {
    let set = InterfaceView { addrs: addr_list(v4, v6), ..was };
    let routed = match v4 {
        Some((ip, _)) => with_v4_route(set, gateway_v4(ip)),
        None => set,
    };
    match v6 {
        Some((ip, _)) => with_v6_route(routed, gateway_v6(ip)),
        None => routed,
    }
}

/// Whether an interface may own these addresses.
pub open spec fn ownable(v4: Option<(u32, u8)>, v6: Option<(u128, u8)>) -> bool {
    &&& v4 matches Some((ip, _)) ==> assignable_v4(ip)
    &&& v6 matches Some((ip, _)) ==> assignable_v6(ip)
}

/// Makes these the only addresses of the interface, each with a default route.
pub fn apply_addrs(
    iface: &mut smoltcp::iface::Interface,
    v4: Option<(u32, u8)>,
    v6: Option<(u128, u8)>,
)
    requires
        ownable(v4, v6),
    ensures
        interface_of(*final(iface)) == with_addrs(interface_of(*old(iface)), v4, v6),
{
    sockets::clear_addrs(iface);
    if let Some((ip, p)) = v4 {
        sockets::push_addr(iface, Cidr::V4(ip, routable_prefix_v4(p)));
    }
    if let Some((ip, p)) = v6 {
        sockets::push_addr(iface, Cidr::V6(ip, routable_prefix_v6(p)));
    }
    assert(interface_of(*iface).addrs =~= addr_list(v4, v6));
    if let Some((ip, _)) = v4 {
        let host: u32 = if ip % 256 == 1 {
            2
        } else {
            1
        };
        sockets::add_default_ipv4_route(iface, ip - ip % 256 + host);
    }
    if let Some((ip, _)) = v6 {
        let host: u128 = if ip % 256 == 1 {
            2
        } else {
            1
        };
        sockets::add_default_ipv6_route(iface, ip - ip % 256 + host);
    }
}

/// The last IPv4 address of the list.
pub open spec fn last_v4(addrs: Seq<Cidr>) -> Option<(u32, u8)>
    decreases addrs.len(),
{
    if addrs.len() == 0 {
        None
    } else {
        match addrs.last() {
            Cidr::V4(ip, p) => Some((ip, p)),
            _ => last_v4(addrs.drop_last()),
        }
    }
}

/// The last IPv6 address of the list.
pub open spec fn last_v6(addrs: Seq<Cidr>) -> Option<(u128, u8)>
    decreases addrs.len(),
{
    if addrs.len() == 0 {
        None
    } else {
        match addrs.last() {
            Cidr::V6(ip, p) => Some((ip, p)),
            _ => last_v6(addrs.drop_last()),
        }
    }
}

/// The address of each family that the interface has.
pub fn current_addrs(iface: &smoltcp::iface::Interface) -> (r: (
    Option<(u32, u8)>,
    Option<(u128, u8)>,
))
    ensures
        r.0 == last_v4(interface_of(*iface).addrs),
        r.1 == last_v6(interface_of(*iface).addrs),
        ownable(r.0, r.1),
{
    let addrs = sockets::ip_addrs(iface);
    let mut v4: Option<(u32, u8)> = None;
    let mut v6: Option<(u128, u8)> = None;
    let mut i: usize = 0;
    while i < addrs.len()
        invariant
            i <= addrs.len(),
            forall|j: int| 0 <= j < addrs@.len() ==> holdable(#[trigger] addrs@[j]),
            v4 == last_v4(addrs@.take(i as int)),
            v6 == last_v6(addrs@.take(i as int)),
            ownable(v4, v6),
        decreases addrs.len() - i,
    {
        assert(addrs@.take(i + 1).drop_last() =~= addrs@.take(i as int));
        assert(holdable(addrs@[i as int]));
        match addrs[i] {
            Cidr::V4(ip, p) => {
                v4 = Some((ip, p));
            },
            Cidr::V6(ip, p) => {
                v6 = Some((ip, p));
            },
        }
        i = i + 1;
    }
    assert(addrs@.take(i as int) =~= addrs@);
    (v4, v6)
}

/// The first where it is there, else the second.
pub open spec fn first_of<T>(a: Option<T>, b: Option<T>) -> Option<T> {
    if a is Some {
        a
    } else {
        b
    }
}

/// Replaces the address of each family that is named and keeps the other.
pub fn merge_addrs(
    iface: &mut smoltcp::iface::Interface,
    v4: Option<(u32, u8)>,
    v6: Option<(u128, u8)>,
)
    requires
        ownable(v4, v6),
    ensures
        ({
            let was = interface_of(*old(iface));
            interface_of(*final(iface)) == with_addrs(
                was,
                first_of(v4, last_v4(was.addrs)),
                first_of(v6, last_v6(was.addrs)),
            )
        }),
{
    let (current_v4, current_v6) = current_addrs(iface);
    let v4 = if v4.is_some() {
        v4
    } else {
        current_v4
    };
    let v6 = if v6.is_some() {
        v6
    } else {
        current_v6
    };
    apply_addrs(iface, v4, v6);
}

/// What was set is what the interface then has, with routable prefixes.
pub proof fn addresses_read_back(v4: Option<(u32, u8)>, v6: Option<(u128, u8)>)
    ensures
        last_v4(addr_list(v4, v6)) == match v4 {
            Some((ip, p)) => Some((ip, widened_v4(p))),
            None => None,
        },
        last_v6(addr_list(v4, v6)) == match v6 {
            Some((ip, p)) => Some((ip, widened_v6(p))),
            None => None,
        },
{
    reveal_with_fuel(last_v4, 3);
    reveal_with_fuel(last_v6, 3);
    let list = addr_list(v4, v6);
    if v6 is Some {
        assert(list.drop_last() =~= addr_list(v4, None));
    }
    if v4 is Some {
        assert(addr_list(v4, None).drop_last() =~= Seq::<Cidr>::empty());
    }
}

/// Setting an address of one family keeps the address of the other, however it
/// was set before.
pub proof fn one_family_keeps_the_other(
    was: InterfaceView,
    old_v4: Option<(u32, u8)>,
    old_v6: Option<(u128, u8)>,
    new_v4: (u32, u8),
)
    requires
        was.addrs == addr_list(old_v4, old_v6),
    ensures
        ({
            let now = with_addrs(
                was,
                first_of(Some(new_v4), last_v4(was.addrs)),
                first_of(None, last_v6(was.addrs)),
            );
            &&& last_v4(now.addrs) == Some((new_v4.0, widened_v4(new_v4.1)))
            &&& last_v6(now.addrs) == last_v6(was.addrs)
        }),
{
    addresses_read_back(old_v4, old_v6);
    addresses_read_back(Some(new_v4), last_v6(was.addrs));
}

/// The same for an IPv6 address.
pub proof fn the_other_family_keeps_the_one(
    was: InterfaceView,
    old_v4: Option<(u32, u8)>,
    old_v6: Option<(u128, u8)>,
    new_v6: (u128, u8),
)
    requires
        was.addrs == addr_list(old_v4, old_v6),
    ensures
        ({
            let now = with_addrs(
                was,
                first_of(None, last_v4(was.addrs)),
                first_of(Some(new_v6), last_v6(was.addrs)),
            );
            &&& last_v6(now.addrs) == Some((new_v6.0, widened_v6(new_v6.1)))
            &&& last_v4(now.addrs) == last_v4(was.addrs)
        }),
{
    addresses_read_back(old_v4, old_v6);
    addresses_read_back(last_v4(was.addrs), Some(new_v6));
}

/// Whether the table holds nothing but default routes.
pub open spec fn only_default_routes(v: InterfaceView) -> bool {
    v.routes == (if v.v4_gateway is Some {
        1nat
    } else {
        0
    }) + (if v.v6_gateway is Some {
        1nat
    } else {
        0
    })
}

/// An interface with nothing but default routes always has room for the new
/// ones, and still has nothing but default routes.
pub proof fn default_routes_always_fit(
    was: InterfaceView,
    v4: Option<(u32, u8)>,
    v6: Option<(u128, u8)>,
)
    requires
        only_default_routes(was),
    ensures
        only_default_routes(with_addrs(was, v4, v6)),
        v4 matches Some((ip, _)) ==> with_addrs(was, v4, v6).v4_gateway == Some(gateway_v4(ip)),
        v4 is None ==> with_addrs(was, v4, v6).v4_gateway == was.v4_gateway,
        v6 matches Some((ip, _)) ==> with_addrs(was, v4, v6).v6_gateway == Some(gateway_v6(ip)),
        v6 is None ==> with_addrs(was, v4, v6).v6_gateway == was.v6_gateway,
{
}

/// A host is never its own gateway, and shares all but the last octet with it.
pub proof fn the_gateway_is_a_neighbour(ip: u32)
    ensures
        gateway_v4(ip) != ip,
        gateway_v4(ip) / 256 == ip / 256,
{
}

/// The same of an IPv6 host.
pub proof fn the_ipv6_gateway_is_a_neighbour(ip: u128)
    ensures
        gateway_v6(ip) != ip,
        gateway_v6(ip) / 256 == ip / 256,
{
}

/// A gateway is the first host of its last octet, or the second where the host
/// itself is the first.
pub proof fn a_gateway_is_the_first_other_host(ip: u32, ip6: u128)
    ensures
        ip % 256 != 1 ==> gateway_v4(ip) % 256 == 1,
        ip % 256 == 1 ==> gateway_v4(ip) % 256 == 2,
        ip6 % 256 != 1 ==> gateway_v6(ip6) % 256 == 1,
        ip6 % 256 == 1 ==> gateway_v6(ip6) % 256 == 2,
{
}

/// The prefix of an interface always leaves room for a gateway, and one that
/// does so already is kept.
pub proof fn a_prefix_leaves_room_for_a_gateway(p: u8)
    ensures
        widened_v4(p) <= 30,
        p <= 30 ==> widened_v4(p) == p,
        p > 30 ==> widened_v4(p) == 24,
        widened_v6(p) <= 126,
        p <= 126 ==> widened_v6(p) == p,
        p > 126 ==> widened_v6(p) == 64,
{
}

/// Setting addresses gives the interface these and no others, IPv4 first.
pub proof fn an_interface_has_the_addresses_it_was_given(
    was: InterfaceView,
    v4: Option<(u32, u8)>,
    v6: Option<(u128, u8)>,
)
    ensures
        ({
            let now = with_addrs(was, v4, v6);
            &&& v4 is None && v6 is None ==> now.addrs.len() == 0
            &&& v4 matches Some((ip, p)) ==> now.addrs.len() >= 1 && (now.addrs[0] matches Cidr::V4(
                a,
                q,
            ) && a == ip && (p <= 30 ==> q == p))
            &&& v6 matches Some((ip, p)) ==> now.addrs.len() >= 1 && (now.addrs.last()
                matches Cidr::V6(a, q) && a == ip && (p <= 126 ==> q == p))
            &&& now.addrs.len() == (if v4 is Some {
                1int
            } else {
                0
            }) + (if v6 is Some {
                1int
            } else {
                0
            })
        }),
{
}

/// An interface may own any address but the broadcast address and those of a
/// group.
pub proof fn group_addresses_are_not_owned(v4: (u32, u8), v6: (u128, u8))
    ensures
        ownable(None, None),
        ownable(Some(v4), None) <==> v4.0 != 0xffff_ffff && v4.0 / 0x1000_0000 != 14,
        ownable(None, Some(v6)) <==> v6.0 / 0x100_0000_0000_0000_0000_0000_0000_0000 != 255,
        ownable(Some(v4), Some(v6)) <==> ownable(Some(v4), None) && ownable(None, Some(v6)),
{
}

} // verus!
