//! Turning the address records of a seed lookup into peer addresses.
use vstd::prelude::*;
use crate::peer::{IpAddress, PeerAddress};

verus! {

#[derive(Clone, Copy, Debug, PartialEq, Eq, Structural)]
pub enum ResolutionError {
    /// The lookup itself failed.
    LookupFailed,
    /// The lookup succeeded with no address records.
    NoAddresses,
}

fn contains_peer(v: &Vec<PeerAddress>, p: PeerAddress) -> (r: bool)
    ensures
        r == v@.contains(p),
{
    let mut i: usize = 0;
    while i < v.len()
        invariant
            i <= v@.len(),
            forall|j: int| 0 <= j < i ==> v@[j] != p,
        decreases v@.len() - i,
    {
        if v[i] == p {
            return true;
        }
        i = i + 1;
    }
    false
}

/// The peers that a lookup names: each record with the given port, once
/// each. No records is `NoAddresses`.
pub fn peers_from_lookup(ips: &[IpAddress], port: u16) -> (r: Result<
    Vec<PeerAddress>,
    ResolutionError,
>)
    ensures
        match r {
            Ok(v) => {
                &&& ips@.len() > 0
                &&& v@.no_duplicates()
                &&& forall|p: PeerAddress| v@.contains(p) <==> (p.port == port && ips@.contains(p.ip))
            },
            Err(e) => ips@.len() == 0 && e == ResolutionError::NoAddresses,
        },
{
    if ips.len() == 0 {
        return Err(ResolutionError::NoAddresses);
    }
    let mut out: Vec<PeerAddress> = Vec::new();
    let mut i: usize = 0;
    while i < ips.len()
        invariant
            i <= ips@.len(),
            out@.no_duplicates(),
            forall|p: PeerAddress|
                out@.contains(p) <==> (p.port == port && ips@.subrange(0, i as int).contains(p.ip)),
        decreases ips@.len() - i,
    {
        let p = PeerAddress { ip: ips[i], port };
        proof {
            assert forall|q: PeerAddress|
                q.port == port && ips@.subrange(0, i + 1).contains(q.ip) implies
                    q.port == port && ips@.subrange(0, i as int).contains(q.ip) || q == p by {
                let k = choose|k: int| 0 <= k < i + 1 && #[trigger] ips@.subrange(0, i + 1)[k] == q.ip;
                if k < i {
                    assert(ips@.subrange(0, i as int)[k] == q.ip);
                }
            }
            assert(ips@.subrange(0, i + 1)[i as int] == p.ip);
            assert forall|q: PeerAddress|
                q.port == port && ips@.subrange(0, i as int).contains(q.ip) implies
                    ips@.subrange(0, i + 1).contains(q.ip) by {
                let k = choose|k: int| 0 <= k < i && #[trigger] ips@.subrange(0, i as int)[k] == q.ip;
                assert(ips@.subrange(0, i + 1)[k] == q.ip);
            }
        }
        if !contains_peer(&out, p) {
            let ghost before = out@;
            out.push(p);
            proof {
                assert forall|q: PeerAddress| out@.contains(q) <==> (q.port == port
                    && ips@.subrange(0, i + 1).contains(q.ip)) by {
                    if q == p {
                        assert(out@[out@.len() - 1] == q);
                    } else {
                        if out@.contains(q) {
                            let k = choose|k: int| 0 <= k < out@.len() && out@[k] == q;
                            assert(k < out@.len() - 1);
                            assert(before[k] == q);
                            assert(before.contains(q));
                        }
                        if q.port == port && ips@.subrange(0, i + 1).contains(q.ip) {
                            assert(ips@.subrange(0, i as int).contains(q.ip));
                            assert(before.contains(q));
                            let k = choose|k: int| 0 <= k < before.len() && before[k] == q;
                            assert(out@[k] == q);
                        }
                    }
                }
            }
        }
        i = i + 1;
    }
    assert(ips@.subrange(0, ips@.len() as int) =~= ips@);
    Ok(out)
}

} // verus!
