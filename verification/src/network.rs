//! Which local network interfaces a scan may use.
use vstd::prelude::*;

use crate::text::{is_prefix_of, lower_seq, starts_with, str_to_lower, to_chars};

verus! {

broadcast use vstd::string::group_string_axioms;

/// Interface name prefixes of tunnels, bridges, loopback and Apple's
/// peer-to-peer links, which never reach the local network.
pub open spec fn virtual_prefix(l: Seq<char>) -> bool {
    is_prefix_of("utun"@, l) || is_prefix_of("gif"@, l) || is_prefix_of("stf"@, l) || is_prefix_of("bridge"@, l)
        || is_prefix_of("lo"@, l) || is_prefix_of("awdl"@, l) || is_prefix_of("llw"@, l)
}

/// An interface is usable unless its name (in any case) is a virtual one, or
/// its address is a benchmarking address (198.18.0.0/15, which proxies use
/// for fake addresses) or a carrier-grade NAT address (100.64.0.0/10).
pub open spec fn usable_spec(name: Seq<char>, ip: [u8; 4]) -> bool {
    &&& !virtual_prefix(lower_seq(name))
    &&& !(ip[0] == 198 && (ip[1] == 18 || ip[1] == 19))
    &&& !(ip[0] == 100 && 64 <= ip[1] <= 127)
}

/// An interface is refused exactly when its name begins, in any letter case,
/// with `utun`, `gif`, `stf`, `bridge`, `lo`, `awdl` or `llw`, or its address
/// lies in 198.18.0.0/15 or 100.64.0.0/10. Every other interface is usable,
/// whatever else its address is: private (10.0.0.0/8, 172.16.0.0/12,
/// 192.168.0.0/16) or public.
pub proof fn law_usable_unless_virtual_or_excluded(name: Seq<char>, ip: [u8; 4])
    ensures
        usable_spec(name, ip) <==> !(is_prefix_of("utun"@, lower_seq(name)) || is_prefix_of("gif"@, lower_seq(name))
            || is_prefix_of("stf"@, lower_seq(name)) || is_prefix_of("bridge"@, lower_seq(name)) || is_prefix_of(
            "lo"@,
            lower_seq(name),
        ) || is_prefix_of("awdl"@, lower_seq(name)) || is_prefix_of("llw"@, lower_seq(name))) && !(ip[0] == 198 && 18
            <= ip[1] <= 19) && !(ip[0] == 100 && 64 <= ip[1] && ip[1] < 128),
{
}

/// Two interfaces with the same name and addresses outside the two excluded
/// blocks are alike usable or not: the address plays no other part.
pub proof fn law_usability_ignores_other_addresses(name: Seq<char>, a: [u8; 4], b: [u8; 4])
    requires
        !(a[0] == 198 && (a[1] == 18 || a[1] == 19)) && !(a[0] == 100 && 64 <= a[1] < 128),
        !(b[0] == 198 && (b[1] == 18 || b[1] == 19)) && !(b[0] == 100 && 64 <= b[1] < 128),
    ensures
        usable_spec(name, a) == usable_spec(name, b),
{
}

fn has_prefix(l: &Vec<char>, p: &str) -> (r: bool)
    ensures
        r == is_prefix_of(p@, l@),
{
    let pv = to_chars(p);
    starts_with(l.as_slice(), pv.as_slice())
}

/// Whether an interface can reach peers.
pub fn is_usable_interface(name: &str, ip: [u8; 4]) -> (r: bool)
    ensures
        r == usable_spec(name@, ip),
{
    let lower = str_to_lower(name);
    let l = to_chars(lower.as_str());
    if has_prefix(&l, "utun") || has_prefix(&l, "gif") || has_prefix(&l, "stf") || has_prefix(&l, "bridge")
        || has_prefix(&l, "lo") || has_prefix(&l, "awdl") || has_prefix(&l, "llw") {
        return false;
    }
    if ip[0] == 198 && (ip[1] == 18 || ip[1] == 19) {
        return false;
    }
    if ip[0] == 100 && 64 <= ip[1] && ip[1] <= 127 {
        return false;
    }
    true
}

/// An IPv4 interface as the system lists it.
#[derive(Debug, Clone)]
pub struct InterfaceInfo {
    pub name: String,
    pub ip: [u8; 4],
    pub oper_up: bool,
    pub loopback: bool,
}

/// The address as one number, most significant octet first (the order of
/// `Ipv4Addr`).
pub open spec fn ip_key(ip: [u8; 4]) -> int {
    ip[0] * 16777216 + ip[1] * 65536 + ip[2] * 256 + ip[3]
}

/// An interface a scan uses: up, not loopback, with an address that is not
/// unspecified, link-local (169.254.0.0/16) or multicast (224.0.0.0/4), and
/// usable.
pub open spec fn selected(i: InterfaceInfo) -> bool {
    &&& i.oper_up
    &&& !i.loopback
    &&& !(i.ip[0] == 0 && i.ip[1] == 0 && i.ip[2] == 0 && i.ip[3] == 0)
    &&& !(i.ip[0] == 169 && i.ip[1] == 254)
    &&& !(224 <= i.ip[0] <= 239)
    &&& usable_spec(i.name@, i.ip)
}

pub open spec fn strictly_increasing(v: Seq<[u8; 4]>) -> bool {
    forall|a: int, b: int| 0 <= a < b < v.len() ==> ip_key(v[a]) < ip_key(v[b])
}

fn key_less(a: [u8; 4], b: [u8; 4]) -> (r: bool)
    ensures
        r == (ip_key(a) < ip_key(b)),
{
    if a[0] != b[0] {
        a[0] < b[0]
    } else if a[1] != b[1] {
        a[1] < b[1]
    } else if a[2] != b[2] {
        a[2] < b[2]
    } else {
        a[3] < b[3]
    }
}

proof fn lemma_key_injective(a: [u8; 4], b: [u8; 4])
    requires
        ip_key(a) == ip_key(b),
    ensures
        a@ == b@,
{
    assert(a[0] == b[0]);
    assert(a[1] == b[1]);
    assert(a[2] == b[2]);
    assert(a[3] == b[3]);
    assert(a@ =~= b@);
}

/// Adds an address to an ascending list unless it is there already.
#[verifier::spinoff_prover]
fn insert_sorted(out: &mut Vec<[u8; 4]>, ip: [u8; 4])
    requires
        strictly_increasing(old(out)@),
    ensures
        strictly_increasing(final(out)@),
        forall|x: [u8; 4]| final(out)@.contains(x) <==> (old(out)@.contains(x) || x == ip),
{
    let mut p: usize = 0;
    while p < out.len() && key_less(out[p], ip)
        invariant
            p <= out@.len(),
            out@ == old(out)@,
            forall|a: int| 0 <= a < p ==> ip_key(out@[a]) < ip_key(ip),
        decreases out@.len() - p,
    {
        p = p + 1;
    }
    if p < out.len() && !key_less(ip, out[p]) {
        proof {
            lemma_key_injective(out@[p as int], ip);
            assert(out@[p as int] =~= ip);
            assert(out@.contains(ip));
        }
        return;
    }
    let ghost before = out@;
    assert(before == old(out)@);
    out.insert(p, ip);
    proof {
        assert forall|a: int, b: int| 0 <= a < b < out@.len() implies ip_key(out@[a]) < ip_key(out@[b]) by {
            if b < p {
                assert(out@[a] == before[a] && out@[b] == before[b]);
            } else if b == p {
                assert(out@[a] == before[a]);
            } else if a < p {
                assert(out@[a] == before[a]);
                assert(out@[b] == before[b - 1]);
                assert(ip_key(ip) < ip_key(before[p as int]) || p == b - 1);
                if p < b - 1 {
                    assert(ip_key(before[p as int]) < ip_key(before[b - 1]));
                }
            } else if a == p {
                assert(out@[b] == before[b - 1]);
                if b - 1 > p {
                    assert(ip_key(before[p as int]) < ip_key(before[b - 1]));
                }
            } else {
                assert(out@[a] == before[a - 1]);
                assert(out@[b] == before[b - 1]);
            }
        }
        assert forall|x: [u8; 4]| out@.contains(x) <==> (before.contains(x) || x == ip) by {
            if out@.contains(x) {
                let k = choose|k: int| 0 <= k < out@.len() && out@[k] == x;
                if k < p {
                    assert(before[k] == x);
                } else if k > p {
                    assert(before[k - 1] == x);
                }
            }
            if before.contains(x) {
                let k = choose|k: int| 0 <= k < before.len() && before[k] == x;
                if k < p {
                    assert(out@[k] == x);
                } else {
                    assert(out@[k + 1] == x);
                }
            }
            if x == ip {
                assert(out@[p as int] == x);
            }
        }
        assert(forall|x: [u8; 4]| out@.contains(x) <==> (old(out)@.contains(x) || x == ip));
    }
}

/// Among the first `j` interfaces, a selected one has this address.
pub open spec fn selected_among(interfaces: Seq<InterfaceInfo>, j: int, ip: [u8; 4]) -> bool {
    exists|m: int| 0 <= m < j && selected(#[trigger] interfaces[m]) && interfaces[m].ip == ip
}

/// The addresses of the usable interfaces among those the system listed,
/// ascending, each once.
pub fn select_ipv4_interfaces(interfaces: &Vec<InterfaceInfo>) -> (r: Vec<[u8; 4]>)
    ensures
        strictly_increasing(r@),
        forall|x: [u8; 4]| r@.contains(x) <==> selected_among(interfaces@, interfaces@.len() as int, x),
{
    let mut out: Vec<[u8; 4]> = Vec::new();
    let mut j: usize = 0;
    while j < interfaces.len()
        invariant
            j <= interfaces@.len(),
            strictly_increasing(out@),
            forall|x: [u8; 4]| out@.contains(x) <==> selected_among(interfaces@, j as int, x),
        decreases interfaces@.len() - j,
    {
        let iface = &interfaces[j];
        let ip = iface.ip;
        let keep = iface.oper_up && !iface.loopback && !(ip[0] == 0 && ip[1] == 0 && ip[2] == 0 && ip[3] == 0)
            && !(ip[0] == 169 && ip[1] == 254) && !(224 <= ip[0] && ip[0] <= 239) && is_usable_interface(iface.name.as_str(), ip);
        assert(keep == selected(interfaces@[j as int]));
        let ghost before = out@;
        if keep {
            insert_sorted(&mut out, ip);
        }
        proof {
            assert forall|x: [u8; 4]| out@.contains(x) <==> selected_among(interfaces@, j + 1, x) by {
                if selected_among(interfaces@, j + 1, x) {
                    let m = choose|m: int| 0 <= m < j + 1 && selected(#[trigger] interfaces@[m]) && interfaces@[m].ip == x;
                    if m < j {
                        assert(selected_among(interfaces@, j as int, x));
                    }
                }
                if selected_among(interfaces@, j as int, x) {
                    let m = choose|m: int| 0 <= m < j && selected(#[trigger] interfaces@[m]) && interfaces@[m].ip == x;
                    assert(0 <= m < j + 1);
                }
                if keep && x == ip {
                    assert(selected(interfaces@[j as int]) && interfaces@[j as int].ip == x);
                }
            }
        }
        j = j + 1;
    }
    out
}

} // verus!
