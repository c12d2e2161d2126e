use vstd::prelude::*;
use vstd::string::*;

use crate::text::{decimal, decimal_text, hex, hex_text};

verus! {

/// An IP address as the library keeps it: the address's bits, as
/// `Ipv4Addr::to_bits` and `Ipv6Addr::to_bits` give them.
#[derive(Clone, Copy, Debug, PartialEq, Eq, Hash, Structural)]
pub enum IpAddress {
    V4(u32),
    V6(u128),
}

/// The loopback address 127.0.0.1, on which servers bind unless told otherwise.
pub open spec fn spec_default_ip() -> IpAddress {
    IpAddress::V4(0x7f00_0001)
}

#[verifier::when_used_as_spec(spec_default_ip)]
pub fn default_ip() -> (ip: IpAddress)
    ensures
        ip == spec_default_ip(),
{
    IpAddress::V4(0x7f00_0001)
}

/// The port on which servers listen unless told otherwise.
pub const DEFAULT_PORT: u16 = 8080;

/// The dotted-decimal text of an IPv4 address: its four octets, most significant
/// first, in decimal and separated by `.`.
pub open spec fn ipv4_display(bits: u32) -> Seq<char> {
    decimal((bits / 0x100_0000) as nat) + seq!['.'] + decimal(((bits / 0x1_0000) % 0x100) as nat) + seq!['.']
        + decimal(((bits / 0x100) % 0x100) as nat) + seq!['.'] + decimal((bits % 0x100) as nat)
}

/// The eight 16-bit groups of an IPv6 address, most significant first.
pub open spec fn ipv6_groups(bits: u128) -> Seq<nat> {
    seq![
        ((bits / 0x1_0000_0000_0000_0000_0000_0000_0000) % 0x1_0000) as nat,
        ((bits / 0x1_0000_0000_0000_0000_0000_0000) % 0x1_0000) as nat,
        ((bits / 0x1_0000_0000_0000_0000_0000) % 0x1_0000) as nat,
        ((bits / 0x1_0000_0000_0000_0000) % 0x1_0000) as nat,
        ((bits / 0x1_0000_0000_0000) % 0x1_0000) as nat,
        ((bits / 0x1_0000_0000) % 0x1_0000) as nat,
        ((bits / 0x1_0000) % 0x1_0000) as nat,
        (bits % 0x1_0000) as nat,
    ]
}

/// Groups in lower-case hexadecimal, separated by `:`.
pub open spec fn hex_groups(groups: Seq<nat>) -> Seq<char>
    decreases groups.len(),
{
    if groups.len() == 0 {
        Seq::<char>::empty()
    } else if groups.len() == 1 {
        hex(groups[0])
    } else {
        hex_groups(groups.drop_last()) + seq![':'] + hex(groups.last())
    }
}

/// Scanning the first `n` groups: the start and length of the longest run of
/// zero groups (the first of equally long runs), and the length of the run of
/// zero groups that ends at `n`.
pub open spec fn zero_scan(groups: Seq<nat>, n: nat) -> (int, int, int)
    decreases n,
{
    if n == 0 {
        (0, 0, 0)
    } else {
        let (start, len, current) = zero_scan(groups, (n - 1) as nat);
        if groups[n - 1] == 0 {
            if current + 1 > len {
                (n - (current + 1), current + 1, current + 1)
            } else {
                (start, len, current + 1)
            }
        } else {
            (start, len, 0)
        }
    }
}

/// The text of an IPv6 address in the canonical form of RFC 5952: an
/// IPv4-mapped address as `::ffff:` and its IPv4 text; otherwise the groups in
/// lower-case hexadecimal, with the longest run of two or more zero groups (the
/// first of equally long runs) written as `::`.
pub open spec fn ipv6_display(bits: u128) -> Seq<char> {
    if bits / 0x1_0000_0000 == 0xffff {
        seq![':', ':', 'f', 'f', 'f', 'f', ':'] + ipv4_display((bits % 0x1_0000_0000) as u32)
    } else {
        let groups = ipv6_groups(bits);
        let (start, len, current) = zero_scan(groups, 8);
        if len > 1 {
            hex_groups(groups.subrange(0, start)) + seq![':', ':'] + hex_groups(groups.subrange(start + len, 8))
        } else {
            hex_groups(groups)
        }
    }
}

/// The text of an IP address, as `std::net::IpAddr` displays it.
pub open spec fn ip_display(ip: IpAddress) -> Seq<char> {
    match ip {
        IpAddress::V4(bits) => ipv4_display(bits),
        IpAddress::V6(bits) => ipv6_display(bits),
    }
}

fn ipv4_text(bits: u32) -> (r: String)
    ensures
        r@ == ipv4_display(bits),
{
    let mut r = decimal_text((bits / 0x100_0000) as u64);
    r.append(".");
    let b = decimal_text(((bits / 0x1_0000) % 0x100) as u64);
    r.append(b.as_str());
    r.append(".");
    let c = decimal_text(((bits / 0x100) % 0x100) as u64);
    r.append(c.as_str());
    r.append(".");
    let d = decimal_text((bits % 0x100) as u64);
    r.append(d.as_str());
    proof {
        reveal_strlit(".");
        assert(r@ =~= ipv4_display(bits));
    }
    r
}

/// The groups `from..to` of `groups`, as [`hex_groups`] writes them.
fn hex_group_text(groups: &Vec<u64>, from: usize, to: usize) -> (r: String)
    requires
        from <= to <= groups@.len(),
    ensures
        r@ == hex_groups(groups@.map_values(|g: u64| g as nat).subrange(from as int, to as int)),
{
    let ghost all = groups@.map_values(|g: u64| g as nat);
    let mut r = String::new();
    let mut j: usize = from;
    while j < to
        invariant
            all == groups@.map_values(|g: u64| g as nat),
            from <= j <= to <= groups@.len(),
            r@ == hex_groups(all.subrange(from as int, j as int)),
        decreases to - j,
    {
        let ghost before = all.subrange(from as int, j as int);
        let h = hex_text(groups[j]);
        proof {
            let next = all.subrange(from as int, j + 1);
            assert(next.drop_last() =~= before);
            assert(next.last() == groups@[j as int] as nat);
        }
        if j == from {
            r = h;
            proof {
                assert(all.subrange(from as int, j + 1).len() == 1);
            }
        } else {
            r.append(":");
            r.append(h.as_str());
            proof {
                reveal_strlit(":");
                assert(r@ =~= hex_groups(all.subrange(from as int, j + 1)));
            }
        }
        j = j + 1;
    }
    r
}

fn ipv6_text(bits: u128) -> (r: String)
    ensures
        r@ == ipv6_display(bits),
{
    if bits / 0x1_0000_0000 == 0xffff {
        let mut r = String::from_str("::ffff:");
        let v4 = ipv4_text((bits % 0x1_0000_0000) as u32);
        r.append(v4.as_str());
        proof {
            reveal_strlit("::ffff:");
            assert(r@ =~= ipv6_display(bits));
        }
        return r;
    }
    let mut groups: Vec<u64> = Vec::new();
    groups.push(((bits / 0x1_0000_0000_0000_0000_0000_0000_0000) % 0x1_0000) as u64);
    groups.push(((bits / 0x1_0000_0000_0000_0000_0000_0000) % 0x1_0000) as u64);
    groups.push(((bits / 0x1_0000_0000_0000_0000_0000) % 0x1_0000) as u64);
    groups.push(((bits / 0x1_0000_0000_0000_0000) % 0x1_0000) as u64);
    groups.push(((bits / 0x1_0000_0000_0000) % 0x1_0000) as u64);
    groups.push(((bits / 0x1_0000_0000) % 0x1_0000) as u64);
    groups.push(((bits / 0x1_0000) % 0x1_0000) as u64);
    groups.push((bits % 0x1_0000) as u64);
    let ghost all = groups@.map_values(|g: u64| g as nat);
    assert(all =~= ipv6_groups(bits));
    let mut start: usize = 0;
    let mut len: usize = 0;
    let mut current: usize = 0;
    let mut i: usize = 0;
    while i < 8
        invariant
            groups@.len() == 8,
            all == groups@.map_values(|g: u64| g as nat),
            i <= 8,
            (start as int, len as int, current as int) == zero_scan(all, i as nat),
            current <= i,
            len <= i,
            start + len <= i,
        decreases 8 - i,
    {
        if groups[i] == 0 {
            if current + 1 > len {
                start = i - current;
                len = current + 1;
            }
            current = current + 1;
        } else {
            current = 0;
        }
        i = i + 1;
    }
    if len > 1 {
        let mut r = hex_group_text(&groups, 0, start);
        r.append("::");
        let tail = hex_group_text(&groups, start + len, 8);
        r.append(tail.as_str());
        proof {
            reveal_strlit("::");
            assert(r@ =~= ipv6_display(bits));
        }
        r
    } else {
        let r = hex_group_text(&groups, 0, 8);
        proof {
            assert(all.subrange(0, 8) =~= all);
        }
        r
    }
}

/// Writes an IP address as `std::net::IpAddr` displays it.
pub fn ip_text(ip: IpAddress) -> (r: String)
    ensures
        r@ == ip_display(ip),
{
    match ip {
        IpAddress::V4(bits) => ipv4_text(bits),
        IpAddress::V6(bits) => ipv6_text(bits),
    }
}

} // verus!
