//! Per-VM /30 subnets in 192.168.100.0/24.
//!
//! Each VM gets a /30:
//!   index 0 → 192.168.100.0/30  (host: .1, guest: .2)
//!   index 1 → 192.168.100.4/30  (host: .5, guest: .6)
//!   ...
//!   index 62 → 192.168.100.248/30 (host: .249, guest: .250)
//!
//! At most 63 Firecracker sandboxes run at once on a gateway.

use crate::text::{cat3, decimal, decimal_text, law_decimal_is_positional};
use vstd::prelude::*;
use vstd::string::*;

verus! {

/// How many subnets there are.
pub const MAX_SUBNETS: u8 = 63;

const BASE_A: u8 = 192;

const BASE_B: u8 = 168;

const BASE_C: u8 = 100;

/// An IPv4 address.
#[derive(Clone, Copy, PartialEq, Eq, Debug, Structural)]
pub struct Ipv4Addr {
    pub a: u8,
    pub b: u8,
    pub c: u8,
    pub d: u8,
}

/// An address in dotted decimal.
pub open spec fn dotted(ip: Ipv4Addr) -> Seq<char> {
    decimal(ip.a as nat) + "."@ + decimal(ip.b as nat) + "."@ + decimal(ip.c as nat) + "."@
        + decimal(ip.d as nat)
}

impl Ipv4Addr {
    /// This address in dotted decimal.
    pub fn text(&self) -> (text: String)
        ensures
            text@ == dotted(*self),
    {
        decimal_text(self.a as u64).concat(".").concat(decimal_text(self.b as u64).as_str()).concat(
            ".",
        ).concat(decimal_text(self.c as u64).as_str()).concat(".").concat(
            decimal_text(self.d as u64).as_str(),
        )
    }
}

/// Addresses for one VM's /30 subnet.
#[derive(Clone, Copy, PartialEq, Eq, Debug, Structural)]
pub struct VmSubnet {
    /// Host-side IP (the proxy binds here).
    pub host_ip: Ipv4Addr,
    /// Guest-side IP (the VM's eth0).
    pub guest_ip: Ipv4Addr,
    /// Prefix length (always 30 in an allocated subnet).
    pub prefix_len: u8,
}

/// The subnet with the given index.
pub open spec fn subnet_at(index: nat) -> VmSubnet
    recommends
        index < MAX_SUBNETS,
{
    VmSubnet {
        host_ip: Ipv4Addr { a: 192, b: 168, c: 100, d: (4 * index + 1) as u8 },
        guest_ip: Ipv4Addr { a: 192, b: 168, c: 100, d: (4 * index + 2) as u8 },
        prefix_len: 30,
    }
}

/// The index after `index`: after the last comes the first.
pub open spec fn next_index(index: nat) -> nat {
    (index + 1) % (MAX_SUBNETS as nat)
}

/// The host address with its prefix length.
pub open spec fn host_cidr(subnet: VmSubnet) -> Seq<char> {
    dotted(subnet.host_ip) + "/"@ + decimal(subnet.prefix_len as nat)
}

/// The address one below the host's, the subnet's network address.
pub open spec fn network_ip(subnet: VmSubnet) -> Ipv4Addr {
    Ipv4Addr { d: (subnet.host_ip.d - 1) as u8, ..subnet.host_ip }
}

/// The network address with the prefix length 30.
pub open spec fn network_cidr(subnet: VmSubnet) -> Seq<char> {
    dotted(network_ip(subnet)) + "/30"@
}

/// Whether a subnet has a network address: its host address is not the lowest of its block of 256.
pub open spec fn has_network(subnet: VmSubnet) -> bool {
    subnet.host_ip.d >= 1
}

/// Hands out the subnets in turn.
#[derive(Debug)]
pub struct SubnetPool {
    next: u8,
}

impl View for SubnetPool {
    type V = nat;

    /// The index of the subnet that comes next.
    closed spec fn view(&self) -> nat {
        self.next as nat
    }
}

impl SubnetPool {
    #[verifier::type_invariant]
    spec fn in_range(self) -> bool {
        self.next < MAX_SUBNETS
    }

    /// A pool that has handed out nothing.
    pub fn new() -> (pool: SubnetPool)
        ensures
            pool@ == 0,
    {
        SubnetPool { next: 0 }
    }
}

impl VmSubnet {
    /// Allocate the next subnet of `pool`. Wraps at 63.
    pub fn allocate(pool: &mut SubnetPool) -> (subnet: VmSubnet)
        ensures
            old(pool)@ < MAX_SUBNETS,
            subnet == subnet_at(old(pool)@),
            final(pool)@ == next_index(old(pool)@),
    {
        proof {
            use_type_invariant(&*pool);
        }
        let base: u8 = pool.next * 4;
        if pool.next == MAX_SUBNETS - 1 {
            pool.next = 0;
        } else {
            pool.next = pool.next + 1;
        }
        VmSubnet {
            host_ip: Ipv4Addr { a: BASE_A, b: BASE_B, c: BASE_C, d: base + 1 },
            guest_ip: Ipv4Addr { a: BASE_A, b: BASE_B, c: BASE_C, d: base + 2 },
            prefix_len: 30,
        }
    }

    /// Whether this subnet has a network address.
    pub fn has_network_ip(&self) -> (has: bool)
        ensures
            has == has_network(*self),
    {
        self.host_ip.d >= 1
    }

    /// The host address with its prefix length, as in `192.168.100.1/30`.
    pub fn host_cidr(&self) -> (cidr: String)
        ensures
            cidr@ == host_cidr(*self),
    {
        cat3(self.host_ip.text().as_str(), "/", decimal_text(self.prefix_len as u64).as_str())
    }

    /// The network address with its prefix length, as in `192.168.100.0/30`.
    pub fn network_cidr(&self) -> (cidr: String)
        requires
            has_network(*self),
        ensures
            cidr@ == network_cidr(*self),
    {
        let network = Ipv4Addr {
            a: self.host_ip.a,
            b: self.host_ip.b,
            c: self.host_ip.c,
            d: self.host_ip.d - 1,
        };
        network.text().concat("/30")
    }
}

// ── Laws ─────────────────────────────────────────────────────────────────────

/// Whether `ip` lies in the /30 block of `subnet`'s host address.
pub open spec fn in_subnet(subnet: VmSubnet, ip: Ipv4Addr) -> bool {
    &&& ip.a == subnet.host_ip.a
    &&& ip.b == subnet.host_ip.b
    &&& ip.c == subnet.host_ip.c
    &&& ip.d / 4 == subnet.host_ip.d / 4
}

/// The index that comes next after `n` allocations from a pool whose next index is `start`.
pub open spec fn index_after(start: nat, n: nat) -> nat
    decreases n,
{
    if n == 0 {
        start
    } else {
        next_index(index_after(start, (n - 1) as nat))
    }
}

/// The `n`th allocation (from 0) of a pool whose next index is `start` has the index
/// `start + n`, wrapped at 63.
pub proof fn law_allocation_order(start: nat, n: nat)
    requires
        start < MAX_SUBNETS,
    ensures
        index_after(start, n) == (start + n) % (MAX_SUBNETS as nat),
        index_after(start, n) < MAX_SUBNETS,
    decreases n,
{
    if n > 0 {
        law_allocation_order(start, (n - 1) as nat);
        let before = (start + n - 1) as int;
        let m = MAX_SUBNETS as int;
        vstd::arithmetic::div_mod::lemma_add_mod_noop(before, 1, m);
    } else {
        vstd::arithmetic::div_mod::lemma_small_mod(start, MAX_SUBNETS as nat);
    }
}

/// Each VM gets a unique /30: among any 63 successive allocations no two subnets share an
/// address.
pub proof fn law_subnets_are_disjoint(start: nat, i: nat, j: nat, ip: Ipv4Addr)
    requires
        start < MAX_SUBNETS,
        i < j < i + MAX_SUBNETS,
    ensures
        !(in_subnet(subnet_at(index_after(start, i)), ip) && in_subnet(
            subnet_at(index_after(start, j)),
            ip,
        )),
{
    law_allocation_order(start, i);
    law_allocation_order(start, j);
    let p = index_after(start, i);
    let q = index_after(start, j);
    let m = MAX_SUBNETS as int;
    if p == q {
        vstd::arithmetic::div_mod::lemma_fundamental_div_mod((start + i) as int, m);
        vstd::arithmetic::div_mod::lemma_fundamental_div_mod((start + j) as int, m);
        let u = (start + i) as int / m;
        let v = (start + j) as int / m;
        assert(j - i == 63 * (v - u));
        assert(false);
    }
}

/// The subnet of an index is the /30 block of four addresses that starts at four times the
/// index in 192.168.100.0/24. The host and the guest are its two inner addresses.
pub proof fn law_subnet_layout(index: nat)
    requires
        index < MAX_SUBNETS,
    ensures
        ({
            let s = subnet_at(index);
            let network = Ipv4Addr { a: 192, b: 168, c: 100, d: (4 * index) as u8 };
            &&& has_network(s)
            &&& network_ip(s) == network
            &&& network.d as nat == 4 * index
            &&& in_subnet(s, network)
            &&& in_subnet(s, s.host_ip)
            &&& in_subnet(s, s.guest_ip)
            &&& s.host_ip.d == network.d + 1
            &&& s.guest_ip.d == network.d + 2
            &&& network.d + 3 <= 255
            &&& s.prefix_len == 30
        }),
{
}

/// An address is written as its four numbers in decimal, in order, with dots between them.
pub proof fn law_address_text(ip: Ipv4Addr)
    ensures
        dotted(ip) == decimal(ip.a as nat) + seq!['.'] + decimal(ip.b as nat) + seq!['.'] + decimal(
            ip.c as nat,
        ) + seq!['.'] + decimal(ip.d as nat),
{
    reveal_strlit(".");
    assert("."@ =~= seq!['.']);
}

/// A subnet is told by its host address and its own prefix length, its network by the address one
/// below and the prefix length 30.
pub proof fn law_cidrs(subnet: VmSubnet)
    requires
        subnet.host_ip.d >= 1,
    ensures
        host_cidr(subnet) == dotted(subnet.host_ip) + "/"@ + decimal(subnet.prefix_len as nat),
        network_cidr(subnet) == dotted(
            Ipv4Addr {
                a: subnet.host_ip.a,
                b: subnet.host_ip.b,
                c: subnet.host_ip.c,
                d: (subnet.host_ip.d - 1) as u8,
            },
        ) + "/30"@,
{
}

/// There are 63 subnets. The next one has the next index, and after the last comes the first. What
/// is written of a subnet of an index is the address at four times the index, and one above it
/// for the host.
pub proof fn law_subnets_in_turn(index: nat)
    requires
        index < 63,
    ensures
        MAX_SUBNETS == 63,
        next_index(index) == if index == 62 {
            0
        } else {
            index + 1
        },
        host_cidr(subnet_at(index)) == "192.168.100."@ + decimal(4 * index + 1) + "/30"@,
        network_cidr(subnet_at(index)) == "192.168.100."@ + decimal(4 * index) + "/30"@,
        subnet_at(index).guest_ip.d == subnet_at(index).host_ip.d + 1,
{
    reveal_strlit("192.168.100.");
    reveal_strlit(".");
    reveal_strlit("/");
    reveal_strlit("/30");
    reveal_strlit("0123456789");
    law_decimal_is_positional(0, 1);
    law_decimal_is_positional(0, 3);
    law_decimal_is_positional(1, 9);
    law_decimal_is_positional(19, 2);
    law_decimal_is_positional(1, 6);
    law_decimal_is_positional(16, 8);
    law_decimal_is_positional(1, 0);
    law_decimal_is_positional(10, 0);
    law_decimal_is_positional(3, 0);
    assert(decimal(192) =~= seq!['1', '9', '2']);
    assert(decimal(168) =~= seq!['1', '6', '8']);
    assert(decimal(100) =~= seq!['1', '0', '0']);
    assert(decimal(30) =~= seq!['3', '0']);
    assert(host_cidr(subnet_at(index)) =~= "192.168.100."@ + decimal(4 * index + 1) + "/30"@);
    assert(network_cidr(subnet_at(index)) =~= "192.168.100."@ + decimal(4 * index) + "/30"@);
}

} // verus!
