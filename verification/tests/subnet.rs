//! Subnet allocation and the addresses of a subnet.

use openshell_firecracker::subnet::{Ipv4Addr, SubnetPool, VmSubnet};

fn ip(d: u8) -> Ipv4Addr {
    Ipv4Addr { a: 192, b: 168, c: 100, d }
}

#[test]
fn first_subnet() {
    let mut pool = SubnetPool::new();
    let first = VmSubnet::allocate(&mut pool);
    assert_eq!(first.host_ip, ip(1));
    assert_eq!(first.guest_ip, ip(2));
    assert_eq!(first.prefix_len, 30);
    assert_eq!(first.host_cidr(), "192.168.100.1/30");
    assert_eq!(first.network_cidr(), "192.168.100.0/30");
}

#[test]
fn second_subnet() {
    let mut pool = SubnetPool::new();
    VmSubnet::allocate(&mut pool);
    let second = VmSubnet::allocate(&mut pool);
    assert_eq!(second.host_ip, ip(5));
    assert_eq!(second.guest_ip, ip(6));
    assert_eq!(second.host_cidr(), "192.168.100.5/30");
    assert_eq!(second.network_cidr(), "192.168.100.4/30");
}

#[test]
fn last_subnet_is_followed_by_the_first() {
    let mut pool = SubnetPool::new();
    for _ in 0..62 {
        VmSubnet::allocate(&mut pool);
    }
    let last = VmSubnet::allocate(&mut pool);
    assert_eq!(last.host_ip, ip(249));
    assert_eq!(last.guest_ip, ip(250));
    assert_eq!(last.network_cidr(), "192.168.100.248/30");
    assert_eq!(VmSubnet::allocate(&mut pool).host_ip, ip(1));
}

#[test]
fn any_63_allocations_are_disjoint() {
    let mut pool = SubnetPool::new();
    let mut blocks: Vec<u8> = Vec::new();
    for _ in 0..1000 {
        blocks.push(VmSubnet::allocate(&mut pool).host_ip.d / 4);
    }
    for i in 0..1000 {
        assert_eq!(blocks[i] as usize, i % 63);
        for j in i + 1..1000.min(i + 63) {
            assert_ne!(blocks[i], blocks[j]);
        }
    }
}

#[test]
fn network_is_one_below_the_host() {
    let subnet = VmSubnet {
        host_ip: Ipv4Addr { a: 10, b: 0, c: 7, d: 255 },
        guest_ip: Ipv4Addr { a: 10, b: 0, c: 7, d: 9 },
        prefix_len: 24,
    };
    assert_eq!(subnet.host_cidr(), "10.0.7.255/24");
    assert_eq!(subnet.network_cidr(), "10.0.7.254/30");
}

#[test]
fn address_is_dotted_decimal() {
    for (a, b, c, d) in [(0, 0, 0, 0), (1, 20, 255, 9), (192, 168, 100, 10), (127, 0, 0, 1)] {
        let ours = Ipv4Addr { a, b, c, d }.text();
        assert_eq!(ours, format!("{}.{}.{}.{}", a, b, c, d));
    }
}
