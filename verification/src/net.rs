//! Internet addresses and their text form.

use vstd::prelude::*;
use vstd::string::*;

use crate::text;

verus! {

/// An IP address, as its octets in network order.
#[derive(Debug, Clone, Copy, PartialEq, Eq)]
pub enum IpAddr {
    V4([u8; 4]),
    V6([u8; 16]),
}

/// An IP address with a port.
#[derive(Debug, Clone, Copy, PartialEq, Eq)]
pub struct SocketAddr {
    pub ip: IpAddr,
    pub port: u16,
}

impl IpAddr {
    /// The octets in network order.
    pub open spec fn octets(self) -> Seq<u8> {
        match self {
            IpAddr::V4(o) => o@,
            IpAddr::V6(o) => o@,
        }
    }
}

/// Four octets in dotted-decimal notation.
pub open spec fn ipv4_text(o: Seq<u8>) -> Seq<char> {
    text::decimal(o[0] as nat) + "."@ + text::decimal(o[1] as nat) + "."@ + text::decimal(
        o[2] as nat,
    ) + "."@ + text::decimal(o[3] as nat)
}

/// The eight 16-bit groups of an IPv6 address.
pub open spec fn ipv6_groups(o: Seq<u8>) -> Seq<nat> {
    Seq::new(8, |i: int| (o[2 * i] as nat) * 256 + o[2 * i + 1] as nat)
}

/// Whether the `n` groups from `start` on exist and are all zero.
pub open spec fn zero_run(groups: Seq<nat>, start: int, n: int) -> bool {
    &&& 0 <= start
    &&& 0 <= n
    &&& start + n <= groups.len()
    &&& forall|k: int| start <= k < start + n ==> groups[k] == 0
}

/// Whether this is the longest run of zero groups, the first one of that length.
pub open spec fn longest_zero_run(groups: Seq<nat>, start: int, n: int) -> bool {
    &&& zero_run(groups, start, n)
    &&& forall|s: int, m: int| #[trigger]
        zero_run(groups, s, m) ==> m < n || (m == n && start <= s)
}

/// Groups in hexadecimal, separated by colons.
pub open spec fn group_text(groups: Seq<nat>) -> Seq<char>
    decreases groups.len(),
{
    if groups.len() == 0 {
        Seq::empty()
    } else if groups.len() == 1 {
        text::hexadecimal(groups[0])
    } else {
        group_text(groups.drop_last()) + ":"@ + text::hexadecimal(groups.last())
    }
}

/// Whether the address is an IPv4-mapped one (`::ffff:a.b.c.d`).
pub open spec fn ipv4_mapped(o: Seq<u8>) -> bool {
    &&& forall|k: int| 0 <= k < 10 ==> o[k] == 0
    &&& o[10] == 255
    &&& o[11] == 255
}

/// The canonical text of an IPv6 address: an IPv4-mapped address keeps its
/// dotted part, and otherwise the longest run of at least two zero groups (the
/// first one among equals) is written `::`.
pub open spec fn ipv6_text(o: Seq<u8>) -> Seq<char> {
    let groups = ipv6_groups(o);
    let (start, n) = choose|start: int, n: int| longest_zero_run(groups, start, n);
    if ipv4_mapped(o) {
        "::ffff:"@ + ipv4_text(o.subrange(12, 16))
    } else if n > 1 {
        group_text(groups.subrange(0, start)) + "::"@ + group_text(groups.subrange(start + n, 8))
    } else {
        group_text(groups)
    }
}

/// The text form of an address.
pub open spec fn ip_text(ip: IpAddr) -> Seq<char> {
    match ip {
        IpAddr::V4(o) => ipv4_text(o@),
        IpAddr::V6(o) => ipv6_text(o@),
    }
}

fn push_ipv4(out: &mut String, a: u8, b: u8, c: u8, d: u8)
    ensures
        final(out)@ == old(out)@ + ipv4_text(seq![a, b, c, d]),
{
    text::push_decimal(out, a as u64);
    out.append(".");
    text::push_decimal(out, b as u64);
    out.append(".");
    text::push_decimal(out, c as u64);
    out.append(".");
    text::push_decimal(out, d as u64);
    assert(out@ =~= old(out)@ + ipv4_text(seq![a, b, c, d]));
}

fn push_groups(out: &mut String, groups: &Vec<u16>, from: usize, to: usize)
    requires
        from <= to <= groups@.len(),
    ensures
        final(out)@ == old(out)@ + group_text(
            groups@.subrange(from as int, to as int).map_values(|g: u16| g as nat),
        ),
{
    let ghost all = groups@.subrange(from as int, to as int).map_values(|g: u16| g as nat);
    let mut i: usize = from;
    assert(all.take(0) =~= Seq::<nat>::empty());
    while i < to
        invariant
            from <= i <= to <= groups@.len(),
            all == groups@.subrange(from as int, to as int).map_values(|g: u16| g as nat),
            out@ =~= old(out)@ + group_text(all.take(i - from)),
        decreases to - i,
    {
        let ghost next = all.take(i - from + 1);
        assert(next.drop_last() =~= all.take(i - from));
        assert(next.last() == groups@[i as int] as nat);
        if i > from {
            out.append(":");
        }
        text::push_hexadecimal(out, groups[i]);
        i = i + 1;
    }
    assert(all.take(to - from) =~= all);
}

/// The longest run of zero groups, the first one of that length: where it starts
/// and how long it is.
fn find_zero_run(groups: &Vec<u16>) -> (r: (usize, usize))
    ensures
        longest_zero_run(groups@.map_values(|g: u16| g as nat), r.0 as int, r.1 as int),
{
    let ghost all = groups@.map_values(|g: u16| g as nat);
    let mut best: usize = 0;
    let mut best_len: usize = 0;
    // The run of zero groups that ends just before `i`.
    let mut run: usize = 0;
    let mut i: usize = 0;
    while i < groups.len()
        invariant
            all == groups@.map_values(|g: u16| g as nat),
            run <= i <= groups@.len(),
            zero_run(all, i - run, run as int),
            run < i ==> all[i - run - 1] != 0,
            zero_run(all, best as int, best_len as int),
            best + best_len <= i,
            run <= best_len,
            forall|s: int, m: int| #[trigger]
                zero_run(all, s, m) && s + m <= i ==> m < best_len || (m == best_len && best <= s),
        decreases groups.len() - i,
    {
        let ghost prev_best = best;
        let ghost prev_len = best_len;
        let ghost before = i;
        if groups[i] == 0 {
            run = run + 1;
            if run > best_len {
                best = i + 1 - run;
                best_len = run;
            }
        } else {
            run = 0;
        }
        i = i + 1;
        proof {
            assert(all[before as int] == groups@[before as int] as nat);
            assert forall|s: int, m: int| #[trigger] zero_run(all, s, m) && s + m <= i implies m
                < best_len || (m == best_len && best <= s) by {
                if s + m <= before {
                } else if m > 0 {
                    // The run ends with the group just read, so it lies within
                    // the current run.
                    assert(all[before as int] == 0);
                    if m > run {
                        assert(all[i - run - 1] == 0);
                    }
                }
            }
        }
    }
    (best, best_len)
}

impl IpAddr {
    /// The text form: dotted decimal for IPv4, canonical groups for IPv6.
    pub fn to_text(&self) -> (r: String)
        ensures
            r@ == ip_text(*self),
    {
        let mut out = String::new();
        match self {
            IpAddr::V4(o) => {
                push_ipv4(&mut out, o[0], o[1], o[2], o[3]);
                assert(seq![o@[0], o@[1], o@[2], o@[3]] =~= o@);
                assert(out@ =~= ipv4_text(o@));
            },
            IpAddr::V6(o) => {
                let mut groups: Vec<u16> = Vec::new();
                let mut i: usize = 0;
                while i < 8
                    invariant
                        i <= 8,
                        o@.len() == 16,
                        groups@.len() == i,
                        forall|k: int|
                            0 <= k < i ==> groups@[k] as nat == (o@[2 * k] as nat) * 256 + o@[2 * k
                                + 1] as nat,
                    decreases 8 - i,
                {
                    groups.push((o[2 * i] as u16) * 256 + o[2 * i + 1] as u16);
                    i = i + 1;
                }
                let ghost all = groups@.map_values(|g: u16| g as nat);
                assert(all =~= ipv6_groups(o@));
                let mapped = groups[0] == 0 && groups[1] == 0 && groups[2] == 0 && groups[3] == 0
                    && groups[4] == 0 && groups[5] == 65535;
                assert(mapped == ipv4_mapped(o@)) by {
                    if mapped {
                        assert forall|k: int| 0 <= k < 10 implies o@[k] == 0 by {
                            assert(groups@[k / 2] as nat == (o@[2 * (k / 2)] as nat) * 256 + o@[2 * (
                            k / 2) + 1] as nat);
                            assert(groups@[k / 2] == 0);
                        }
                    }
                }
                let (start, n) = find_zero_run(&groups);
                proof {
                    let (s, m) = choose|s: int, m: int| longest_zero_run(all, s, m);
                    assert(longest_zero_run(all, start as int, n as int));
                    assert(longest_zero_run(all, s, m));
                    assert(s == start && m == n);
                }
                if mapped {
                    out.append("::ffff:");
                    push_ipv4(&mut out, o[12], o[13], o[14], o[15]);
                    assert(seq![o@[12], o@[13], o@[14], o@[15]] =~= o@.subrange(12, 16));
                } else if n > 1 {
                    push_groups(&mut out, &groups, 0, start);
                    out.append("::");
                    push_groups(&mut out, &groups, start + n, 8);
                    assert(groups@.subrange(0, start as int).map_values(|g: u16| g as nat)
                        =~= all.subrange(0, start as int));
                    assert(groups@.subrange(start + n, 8).map_values(|g: u16| g as nat)
                        =~= all.subrange(start + n, 8));
                } else {
                    push_groups(&mut out, &groups, 0, 8);
                    assert(groups@.subrange(0, 8).map_values(|g: u16| g as nat) =~= all);
                }
                assert(out@ =~= ipv6_text(o@));
            },
        }
        out
    }
}

/// An IPv4 address is its four octets in decimal with dots between them.
pub proof fn law_ipv4_text(o: Seq<u8>)
    requires
        o.len() == 4,
    ensures
        ipv4_text(o) == text::decimal(o[0] as nat) + "."@ + text::decimal(o[1] as nat) + "."@
            + text::decimal(o[2] as nat) + "."@ + text::decimal(o[3] as nat),
{
}

/// The groups of an IPv6 address are in hexadecimal, each two octets wide with
/// the high one first, and with colons between them.
pub proof fn law_ipv6_groups(o: Seq<u8>, k: int, groups: Seq<nat>, last: nat)
    requires
        0 <= k < 8,
    ensures
        ipv6_groups(o).len() == 8,
        ipv6_groups(o)[k] == o[2 * k] * 256 + o[2 * k + 1],
        group_text(Seq::empty()) == Seq::<char>::empty(),
        group_text(seq![last]) == text::hexadecimal(last),
        groups.len() > 0 ==> group_text(groups.push(last)) == group_text(groups) + ":"@
            + text::hexadecimal(last),
{
    if groups.len() > 0 {
        assert(groups.push(last).drop_last() =~= groups);
    }
}

/// An IPv4-mapped address is written `::ffff:` and the IPv4 address.
pub proof fn law_mapped_ipv6_text(o: Seq<u8>)
    requires
        o.len() == 16,
        forall|k: int| 0 <= k < 10 ==> #[trigger] o[k] == 0,
        o[10] == 255,
        o[11] == 255,
    ensures
        ipv6_text(o) == "::ffff:"@ + ipv4_text(seq![o[12], o[13], o[14], o[15]]),
{
    assert(o.subrange(12, 16) =~= seq![o[12], o[13], o[14], o[15]]);
}

/// Any other IPv6 address is written group by group, with `::` in place of its
/// longest run of zero groups: the first of that length, and only where the run
/// is of two groups or more.
pub proof fn law_ipv6_text(o: Seq<u8>, start: int, n: int)
    requires
        o.len() == 16,
        !((forall|k: int| 0 <= k < 10 ==> #[trigger] o[k] == 0) && o[10] == 255 && o[11] == 255),
        0 <= start,
        0 <= n,
        start + n <= 8,
        forall|k: int| start <= k < start + n ==> #[trigger] ipv6_groups(o)[k] == 0,
        // No run is longer, and none of this length begins earlier.
        forall|s: int, m: int|
            #![trigger ipv6_groups(o).subrange(s, s + m)]
            0 <= s && 0 <= m && s + m <= 8 && (forall|k: int|
                s <= k < s + m ==> #[trigger] ipv6_groups(o)[k] == 0) ==> m < n || (m == n && start
                <= s),
    ensures
        n >= 2 ==> ipv6_text(o) == group_text(ipv6_groups(o).subrange(0, start)) + "::"@
            + group_text(ipv6_groups(o).subrange(start + n, 8)),
        n < 2 ==> ipv6_text(o) == group_text(ipv6_groups(o)),
{
    let groups = ipv6_groups(o);
    assert(!ipv4_mapped(o));
    assert(zero_run(groups, start, n));
    assert forall|s: int, m: int| #[trigger] zero_run(groups, s, m) implies m < n || (m == n && start
        <= s) by {
        let run = ipv6_groups(o).subrange(s, s + m);
    }
    assert(longest_zero_run(groups, start, n));
    let (s, m) = choose|s: int, m: int| longest_zero_run(groups, s, m);
    assert(longest_zero_run(groups, s, m));
    assert(zero_run(groups, s, m));
}

/// The text of an address is that of its kind.
pub proof fn law_text_of_an_address(ip: IpAddr)
    ensures
        ip matches IpAddr::V4(o) ==> ip_text(ip) == ipv4_text(o@) && ip.octets() == o@,
        ip matches IpAddr::V6(o) ==> ip_text(ip) == ipv6_text(o@) && ip.octets() == o@,
{
}

} // verus!
