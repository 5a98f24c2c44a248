//! The allow-list of client addresses that may purge: exact entries matched
//! as text, and networks in CIDR notation matched by prefix.
use vstd::prelude::*;
use crate::plugin::texts_view;

verus! {

/// An IP address as a number: 32 bits for IPv4, 128 for IPv6.
#[derive(PartialEq, Eq, Structural, Clone, Copy, Debug)]
pub struct IpValue {
    pub v6: bool,
    pub addr: u128,
}

/// A network: an address and the number of leading bits that count.
#[derive(PartialEq, Eq, Structural, Clone, Copy, Debug)]
pub struct IpNet {
    pub v6: bool,
    pub addr: u128,
    pub prefix: u8,
}

/// The number of bits of an address of the family.
pub open spec fn width(v6: bool) -> u32 {
    if v6 { 128 } else { 32 }
}

/// Whether the network holds the address: same family, and the leading
/// `prefix` bits (at most the width) agree.
pub open spec fn net_contains(net: IpNet, ip: IpValue) -> bool {
    let w = width(net.v6);
    let p: u32 = if (net.prefix as u32) < w { net.prefix as u32 } else { w };
    net.v6 == ip.v6 && (p == 0 || (net.addr >> ((w - p) as u128)) == (ip.addr >> ((w - p) as u128)))
}

/// Whether the network holds the address.
pub fn contains(net: IpNet, ip: IpValue) -> (r: bool)
    ensures
        r == net_contains(net, ip),
{
    let w: u32 = if net.v6 { 128 } else { 32 };
    let p: u32 = if (net.prefix as u32) < w { net.prefix as u32 } else { w };
    if net.v6 != ip.v6 {
        return false;
    }
    if p == 0 {
        return true;
    }
    let shift: u128 = (w - p) as u128;
    (net.addr >> shift) == (ip.addr >> shift)
}

/// The purge allow-list.
pub struct IpRules {
    addrs: Vec<String>,
    nets: Vec<IpNet>,
}

impl IpRules {
    pub closed spec fn addrs_spec(&self) -> Seq<Seq<char>> {
        texts_view(self.addrs@)
    }

    pub closed spec fn nets_spec(&self) -> Seq<IpNet> {
        self.nets@
    }

    /// An allow-list of the entries `addrs`, matched as text, and the
    /// networks `nets`.
    pub fn new(addrs: Vec<String>, nets: Vec<IpNet>) -> (r: IpRules)
        ensures
            r.addrs_spec() == texts_view(addrs@),
            r.nets_spec() == nets@,
    {
        IpRules { addrs, nets }
    }

    /// Whether the client may purge, given its address as text and as
    /// read (or why it could not be read): an entry equal to the text
    /// allows it; otherwise an address that cannot be read is an error;
    /// otherwise a network that holds it allows it.
    pub open spec fn matched_spec(&self, ip_text: Seq<char>, ip: Result<IpValue, Seq<char>>) -> Result<bool, Seq<char>> {
        if self.addrs_spec().contains(ip_text) {
            Ok(true)
        } else {
            match ip {
                Err(e) => Err(e),
                Ok(v) => Ok(exists|i: int| 0 <= i < self.nets_spec().len() && net_contains(
                    #[trigger] self.nets_spec()[i],
                    v,
                )),
            }
        }
    }

    /// Decides whether the client may purge.
    pub fn matched(&self, ip_text: &str, ip: Result<IpValue, String>) -> (r: Result<bool, String>)
        ensures
            match r {
                Ok(b) => Ok(b),
                Err(e) => Err(e@),
            } == self.matched_spec(
                ip_text@,
                match ip {
                    Ok(v) => Ok(v),
                    Err(e) => Err(e@),
                },
            ),
    {
        let given = String::from_str(ip_text);
        let mut i: usize = 0;
        while i < self.addrs.len()
            invariant
                i <= self.addrs@.len(),
                given@ == ip_text@,
                forall|j: int| 0 <= j < i ==> self.addrs@[j]@ != ip_text@,
            decreases self.addrs@.len() - i,
        {
            if self.addrs[i] == given {
                assert(self.addrs_spec()[i as int] == ip_text@);
                assert(self.addrs_spec().contains(ip_text@));
                return Ok(true);
            }
            i += 1;
        }
        assert(!self.addrs_spec().contains(ip_text@)) by {
            if self.addrs_spec().contains(ip_text@) {
                let j = choose|j: int| 0 <= j < self.addrs_spec().len() && self.addrs_spec()[j]
                    == ip_text@;
                assert(self.addrs@[j]@ == ip_text@);
            }
        }
        let v = match ip {
            Err(e) => {
                return Err(e);
            },
            Ok(v) => v,
        };
        assert(ip == Ok::<IpValue, String>(v));
        let mut k: usize = 0;
        while k < self.nets.len()
            invariant
                k <= self.nets@.len(),
                !self.addrs_spec().contains(ip_text@),
                ip == Ok::<IpValue, String>(v),
                forall|j: int| 0 <= j < k ==> !net_contains(self.nets@[j], v),
            decreases self.nets@.len() - k,
        {
            if contains(self.nets[k], v) {
                assert(net_contains(self.nets_spec()[k as int], v));
                assert(exists|i: int| 0 <= i < self.nets_spec().len() && net_contains(
                    #[trigger] self.nets_spec()[i],
                    v,
                ));
                return Ok(true);
            }
            k += 1;
        }
        Ok(false)
    }
}

} // verus!
