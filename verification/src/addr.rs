//! Socket addresses as plain values, and filtering by address family.

use vstd::prelude::*;

verus! {

/// One resolved socket address. IPv4 addresses carry their 32 address bits,
/// IPv6 addresses their 128 address bits, each together with the port.
#[derive(Debug, Clone, Copy, PartialEq, Eq, Structural)]
pub enum SockAddr {
    V4 { ip: u32, port: u16 },
    V6 { ip: u128, port: u16 },
}

/// Address family preference used when filtering resolved addresses.
#[derive(Debug, Clone, Copy, PartialEq, Eq, Structural)]
pub enum AddressFamily {
    /// Either IPv4 or IPv6
    Any,
    /// IPv4 only
    IPv4,
    /// IPv6 only
    IPv6,
}

/// Name resolution produced no address of the requested family.
#[derive(Debug, Clone, Copy, PartialEq, Eq, Structural)]
pub enum ResolutionError {
    NoMatchingAddress,
}

impl SockAddr {
    pub open spec fn is_ipv4_spec(self) -> bool {
        self is V4
    }

    pub open spec fn is_ipv6_spec(self) -> bool {
        self is V6
    }

    pub fn is_ipv4(&self) -> (r: bool)
        ensures
            r == self.is_ipv4_spec(),
    {
        match self {
            SockAddr::V4 { .. } => true,
            SockAddr::V6 { .. } => false,
        }
    }

    pub fn is_ipv6(&self) -> (r: bool)
        ensures
            r == self.is_ipv6_spec(),
    {
        match self {
            SockAddr::V4 { .. } => false,
            SockAddr::V6 { .. } => true,
        }
    }
}

/// Whether one address is admitted by a family preference: `Any` admits
/// everything, `IPv4`/`IPv6` only the matching family.
pub open spec fn matches_family(a: SockAddr, family: AddressFamily) -> bool {
    match family {
        AddressFamily::Any => true,
        AddressFamily::IPv4 => a.is_ipv4_spec(),
        AddressFamily::IPv6 => a.is_ipv6_spec(),
    }
}

/// The subsequence of `s` admitted by `family`, in the original order.
pub open spec fn filter_family(s: Seq<SockAddr>, family: AddressFamily) -> Seq<SockAddr> {
    s.filter(|a: SockAddr| matches_family(a, family))
}

/// Keeps exactly the addresses admitted by `family`, preserving order.
#[verifier::loop_isolation(false)]
pub fn filter_addresses(addrs: &Vec<SockAddr>, family: AddressFamily) -> (r: Vec<SockAddr>)
    ensures
        r@ == filter_family(addrs@, family),
{
    let ghost pred = |a: SockAddr| matches_family(a, family);
    let mut out: Vec<SockAddr> = Vec::new();
    let mut i: usize = 0;
    proof {
        assert(addrs@.take(0int).filter(pred) =~= Seq::<SockAddr>::empty());
    }
    while i < addrs.len()
        invariant
            i <= addrs.len(),
            out@ == addrs@.take(i as int).filter(pred),
        decreases addrs.len() - i,
    {
        let a = addrs[i];
        let keep = match family {
            AddressFamily::Any => true,
            AddressFamily::IPv4 => a.is_ipv4(),
            AddressFamily::IPv6 => a.is_ipv6(),
        };
        proof {
            reveal(Seq::filter);
            let pre = addrs@.take(i as int);
            let ext = addrs@.take(i + 1int);
            assert(keep == pred(a));
            assert(ext.drop_last() =~= pre);
            assert(ext.last() == a);
            assert(ext.filter(pred) == if pred(a) {
                pre.filter(pred).push(a)
            } else {
                pre.filter(pred)
            });
        }
        if keep {
            out.push(a);
        }
        i = i + 1;
    }
    proof {
        assert(addrs@.take(addrs@.len() as int) =~= addrs@);
    }
    out
}

/// Every address that survives filtering is admitted by the family, every
/// admitted address of the input survives, and filtering by `Any` keeps the
/// whole sequence unchanged.
pub proof fn lemma_filter_family(s: Seq<SockAddr>, family: AddressFamily)
    ensures
        forall|i: int|
            0 <= i < filter_family(s, family).len() ==> matches_family(
                #[trigger] filter_family(s, family)[i],
                family,
            ),
        forall|i: int|
            0 <= i < s.len() && matches_family(s[i], family) ==> filter_family(
                s,
                family,
            ).contains(#[trigger] s[i]),
        family is Any ==> filter_family(s, family) == s,
{
    broadcast use vstd::seq_lib::group_filter_ensures;

    if family is Any {
        lemma_filter_any(s, family);
    }
}

proof fn lemma_filter_any(s: Seq<SockAddr>, family: AddressFamily)
    requires
        family is Any,
    ensures
        filter_family(s, family) == s,
    decreases s.len(),
{
    reveal(Seq::filter);
    let pred = |a: SockAddr| matches_family(a, family);
    if s.len() == 0 {
        assert(s.filter(pred) =~= s);
    } else {
        lemma_filter_any(s.drop_last(), family);
        assert(s.filter(pred) =~= s.drop_last().filter(pred).push(s.last()));
        assert(s.drop_last().push(s.last()) =~= s);
    }
}

} // verus!
