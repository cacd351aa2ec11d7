use vstd::prelude::*;

verus! {

/// An IP address: IPv4 as its 32-bit value, IPv6 as its 128-bit value (both
/// in network order, most significant bit first).
#[derive(Clone, Copy, Debug, PartialEq, Eq, Structural)]
pub enum IpAddress {
    V4(u32),
    V6(u128),
}

/// A network range in CIDR form: an address and the length of the prefix
/// that addresses of the range share with it.
#[derive(Clone, Copy, Debug, PartialEq, Eq, Structural)]
pub struct NetworkRange {
    pub addr: IpAddress,
    pub prefix_len: u8,
}

impl NetworkRange {
    /// The prefix is no longer than the address.
    pub open spec fn wf(&self) -> bool {
        match self.addr {
            IpAddress::V4(_) => self.prefix_len <= 32,
            IpAddress::V6(_) => self.prefix_len <= 128,
        }
    }

    /// `ip` is of the range's family and shares its first `prefix_len` bits.
    pub open spec fn spec_contains(&self, ip: IpAddress) -> bool {
        match (self.addr, ip) {
            (IpAddress::V4(a), IpAddress::V4(b)) => self.prefix_len == 0 || (a >> (32
                - self.prefix_len) as u32) == (b >> (32 - self.prefix_len) as u32),
            (IpAddress::V6(a), IpAddress::V6(b)) => self.prefix_len == 0 || (a >> (128
                - self.prefix_len) as u128) == (b >> (128 - self.prefix_len) as u128),
            _ => false,
        }
    }

    /// Whether the prefix is no longer than the address.
    pub fn well_formed(&self) -> (r: bool)
        ensures
            r == self.wf(),
    {
        match self.addr {
            IpAddress::V4(_) => self.prefix_len <= 32,
            IpAddress::V6(_) => self.prefix_len <= 128,
        }
    }

    /// Whether `ip` lies in this range.
    pub fn contains(&self, ip: IpAddress) -> (r: bool)
        requires
            self.wf(),
        ensures
            r == self.spec_contains(ip),
    {
        match (self.addr, ip) {
            (IpAddress::V4(a), IpAddress::V4(b)) => {
                if self.prefix_len == 0 {
                    true
                } else {
                    let shift: u32 = 32 - self.prefix_len as u32;
                    (a >> shift) == (b >> shift)
                }
            },
            (IpAddress::V6(a), IpAddress::V6(b)) => {
                if self.prefix_len == 0 {
                    true
                } else {
                    let shift: u128 = 128 - self.prefix_len as u128;
                    (a >> shift) == (b >> shift)
                }
            },
            _ => false,
        }
    }
}

/// What ipnet's parser makes of a network in CIDR notation (`"10.0.0.0/8"`,
/// `"2001:db8::/48"`), or `None` where it refuses the text.
pub uninterp spec fn network_of(s: Seq<char>) -> Option<NetworkRange>;

/// Relies on `FromStr for ipnet::IpNet`: the outcome depends on the text
/// alone, and a network it builds has a prefix no longer than its address
/// (`Ipv4Net::new` and `Ipv6Net::new` refuse longer ones).
#[verifier::external_body]
fn parse_ipnet(s: &str) -> (r: Option<NetworkRange>)
    ensures
        r == network_of(s@),
        r is Some ==> r->0.wf(),
{
    match s.parse::<ipnet::IpNet>() {
        Ok(ipnet::IpNet::V4(n)) => Some(
            NetworkRange { addr: IpAddress::V4(u32::from(n.addr())), prefix_len: n.prefix_len() },
        ),
        Ok(ipnet::IpNet::V6(n)) => Some(
            NetworkRange { addr: IpAddress::V6(u128::from(n.addr())), prefix_len: n.prefix_len() },
        ),
        Err(_) => None,
    }
}

impl NetworkRange {
    /// Reads a network in CIDR notation; `None` where the text is not one.
    pub fn parse(s: &str) -> (r: Option<NetworkRange>)
        ensures
            r == network_of(s@),
            r is Some ==> r->0.wf(),
    {
        parse_ipnet(s)
    }
}

/// Every range of the set is well formed.
pub open spec fn all_wf(trusted: Seq<NetworkRange>) -> bool {
    forall|i: int| 0 <= i < trusted.len() ==> #[trigger] trusted[i].wf()
}

/// Whether every range of the set is well formed.
pub fn all_well_formed(trusted: &Vec<NetworkRange>) -> (r: bool)
    ensures
        r == all_wf(trusted@),
{
    let mut i: usize = 0;
    while i < trusted.len()
        invariant
            i <= trusted@.len(),
            forall|k: int| 0 <= k < i ==> #[trigger] trusted@[k].wf(),
        decreases trusted@.len() - i,
    {
        if !trusted[i].well_formed() {
            return false;
        }
        i = i + 1;
    }
    true
}

/// `ip` lies in some range of the set.
pub open spec fn is_trusted(trusted: Seq<NetworkRange>, ip: IpAddress) -> bool {
    exists|i: int| 0 <= i < trusted.len() && #[trigger] trusted[i].spec_contains(ip)
}

/// Whether `ip` lies in any range of `trusted`.
pub fn in_any_range(trusted: &Vec<NetworkRange>, ip: IpAddress) -> (r: bool)
    requires
        all_wf(trusted@),
    ensures
        r == is_trusted(trusted@, ip),
{
    let mut i: usize = 0;
    while i < trusted.len()
        invariant
            i <= trusted@.len(),
            all_wf(trusted@),
            forall|k: int| 0 <= k < i ==> !(#[trigger] trusted@[k].spec_contains(ip)),
        decreases trusted@.len() - i,
    {
        if trusted[i].contains(ip) {
            return true;
        }
        i = i + 1;
    }
    false
}

} // verus!
