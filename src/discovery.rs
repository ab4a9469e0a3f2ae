//! Discovery of devices by UDP broadcast: which replies to a probe are new devices.
use vstd::prelude::*;
use crate::api::Info;

verus! {

/// The UDP port that probes are broadcast to and replies come from.
pub const DISCOVERY_PORT: u16 = 5678;

/// The seconds a receive may wait for a reply.
pub const RECEIVE_TIMEOUT_SECS: u64 = 3;

/// The address that probes are broadcast to.
pub const BROADCAST_ADDRESS: &'static str = "255.255.255.255:5678";

/// The probe: the ASCII text `irobotmcs`.
pub open spec fn probe_payload() -> Seq<u8> {
    seq![0x69u8, 0x72u8, 0x6fu8, 0x62u8, 0x6fu8, 0x74u8, 0x6du8, 0x63u8, 0x73u8]
}

/// The probe that is broadcast to find devices.
pub fn discovery_probe() -> (r: Vec<u8>)
    ensures
        r@ == probe_payload(),
{
    let r: Vec<u8> = vec![0x69u8, 0x72u8, 0x6fu8, 0x62u8, 0x6fu8, 0x74u8, 0x6du8, 0x63u8, 0x73u8];
    assert(r@ =~= probe_payload());
    r
}

/// Whether a datagram is the probe itself, heard back.
pub fn is_echo(datagram: &[u8]) -> (r: bool)
    ensures
        r == (datagram@ == probe_payload()),
{
    let probe = discovery_probe();
    if datagram.len() != probe.len() {
        return false;
    }
    let mut i: usize = 0;
    while i < probe.len()
        invariant
            0 <= i <= probe.len(),
            probe@ == probe_payload(),
            datagram@.len() == probe@.len(),
            datagram@.take(i as int) == probe@.take(i as int),
        decreases probe.len() - i,
    {
        if datagram[i] != probe[i] {
            assert(datagram@[i as int] != probe@[i as int]);
            return false;
        }
        i = i + 1;
        assert(datagram@.take(i as int) =~= probe@.take(i as int));
    }
    assert(datagram@ =~= datagram@.take(i as int));
    assert(probe@ =~= probe@.take(i as int));
    true
}

/// A reply is yielded when it is not the probe's echo, was decoded, and comes from an address
/// not yet yielded in this scan.
pub open spec fn admits(found: Seq<Seq<char>>, datagram: Seq<u8>, decoded: Option<Info>) -> bool {
    &&& datagram != probe_payload()
    &&& decoded is Some
    &&& !found.contains(decoded->0.ip@)
}

/// The views of a list of texts.
pub open spec fn string_views(v: Seq<String>) -> Seq<Seq<char>> {
    v.map_values(|s: String| s@)
}

/// One scan's memory of the addresses it has yielded.
pub struct Discovery {
    found: Vec<String>,
}

impl Discovery {
    /// The addresses yielded so far, in order.
    pub closed spec fn found(&self) -> Seq<Seq<char>> {
        string_views(self.found@)
    }

    /// A scan that has yielded nothing yet.
    pub fn new() -> (r: Discovery)
        ensures
            r.found() == Seq::<Seq<char>>::empty(),
            r.found().no_duplicates(),
    {
        let r = Discovery { found: Vec::new() };
        assert(r.found() =~= Seq::<Seq<char>>::empty());
        r
    }

    /// Whether an address has been yielded in this scan.
    pub fn has_found(&self, ip: &String) -> (r: bool)
        ensures
            r == self.found().contains(ip@),
    {
        let mut i: usize = 0;
        while i < self.found.len()
            invariant
                0 <= i <= self.found.len(),
                forall|j: int| 0 <= j < i ==> self.found@[j]@ != ip@,
            decreases self.found.len() - i,
        {
            if self.found[i] == *ip {
                assert(self.found()[i as int] == ip@);
                return true;
            }
            i = i + 1;
        }
        proof {
            if self.found().contains(ip@) {
                let j = choose|j: int| 0 <= j < self.found().len() && self.found()[j] == ip@;
                assert(self.found@[j]@ == ip@);
            }
        }
        false
    }

    /// Takes one datagram and what it decoded to, if it decoded: the advertisement when it is a
    /// new device, and nothing for the probe's echo, a malformed reply, or an address already
    /// yielded.
    pub fn next(&mut self, datagram: &[u8], decoded: Option<Info>) -> (r: Option<Info>)
        ensures
            old(self).found().no_duplicates() ==> final(self).found().no_duplicates(),
            r is Some <==> admits(old(self).found(), datagram@, decoded),
            r is Some ==> r == decoded && final(self).found() == old(self).found().push(
                decoded->0.ip@,
            ),
            r is None ==> final(self).found() == old(self).found(),
    {
        if is_echo(datagram) {
            return None;
        }
        match decoded {
            None => None,
            Some(info) => {
                if self.has_found(&info.ip) {
                    None
                } else {
                    let ghost before = self.found@;
                    self.found.push(info.ip.clone());
                    assert(self.found() =~= string_views(before).push(info.ip@));
                    proof {
                        let f = string_views(before);
                        if f.no_duplicates() {
                            assert forall|a: int, b: int|
                                0 <= a < self.found().len() && 0 <= b < self.found().len() && a
                                    != b implies self.found()[a] != self.found()[b] by {
                                if a == f.len() as int {
                                    assert(self.found()[b] == f[b]);
                                } else if b == f.len() as int {
                                    assert(self.found()[a] == f[a]);
                                }
                            }
                        }
                    }
                    Some(info)
                }
            },
        }
    }
}

/// Two replies from one address in a scan yield one advertisement: once the first has been
/// yielded, the second is not.
pub proof fn lemma_address_yielded_once(
    found: Seq<Seq<char>>,
    first: Seq<u8>,
    a: Info,
    second: Seq<u8>,
    b: Info,
)
    requires
        a.ip@ == b.ip@,
    ensures
        admits(found, first, Some(a)) ==> !admits(found.push(a.ip@), second, Some(b)),
{
    let next = found.push(a.ip@);
    assert(next[found.len() as int] == b.ip@);
}

/// The probe's own echo is never yielded, whatever it decoded to.
pub proof fn lemma_echo_never_yielded(found: Seq<Seq<char>>, decoded: Option<Info>)
    ensures
        !admits(found, probe_payload(), decoded),
{
}

} // verus!
