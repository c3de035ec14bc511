use vstd::prelude::*;

verus! {

/// An IPv4 address, octet by octet.
#[derive(Clone, Copy, Debug, PartialEq, Eq, Structural)]
pub struct Ipv4 {
    pub a: u8,
    pub b: u8,
    pub c: u8,
    pub d: u8,
}

/// A network endpoint: an IPv4 host and a port.
#[derive(Clone, Copy, Debug, PartialEq, Eq, Structural)]
pub struct Endpoint {
    pub host: Ipv4,
    pub port: u16,
}

/// The loopback host every node of the cluster listens on.
pub open spec fn loopback() -> Ipv4 {
    Ipv4 { a: 127, b: 0, c: 0, d: 1 }
}

/// Maps node identifiers to endpoints: node `id` listens on the loopback
/// host at `base_port + id`.
#[derive(Clone, Copy, Debug, PartialEq, Eq, Structural)]
pub struct Resolver {
    pub base_port: u16,
}

/// The endpoint of node `id` under base port `base`.
pub open spec fn endpoint_of(base: u16, id: u64) -> Endpoint {
    Endpoint { host: loopback(), port: (base + id) as u16 }
}

/// Node `id` has an endpoint under base port `base`: its port fits in 16 bits.
pub open spec fn resolvable(base: u16, id: u64) -> bool {
    base + id <= u16::MAX
}

impl Resolver {
    pub fn new(base_port: u16) -> (r: Resolver)
        ensures
            r.base_port == base_port,
    {
        Resolver { base_port }
    }

    /// Whether node `id` has an endpoint.
    pub fn can_resolve(&self, id: u64) -> (r: bool)
        ensures
            r == resolvable(self.base_port, id),
    {
        id <= (u16::MAX - self.base_port) as u64
    }

    /// The endpoint of node `id`.
    pub fn resolve(&self, id: u64) -> (r: Endpoint)
        requires
            resolvable(self.base_port, id),
        ensures
            r == endpoint_of(self.base_port, id),
            r.port == self.base_port + id,
            r.host == loopback(),
    {
        Endpoint { host: Ipv4 { a: 127, b: 0, c: 0, d: 1 }, port: self.base_port + id as u16 }
    }

    /// The endpoint of node `id`, or `None` where its port would not fit.
    pub fn try_resolve(&self, id: u64) -> (r: Option<Endpoint>)
        ensures
            r == (if resolvable(self.base_port, id) {
                Some(endpoint_of(self.base_port, id))
            } else {
                None::<Endpoint>
            }),
    {
        if self.can_resolve(id) {
            Some(self.resolve(id))
        } else {
            None
        }
    }
}

/// Distinct resolvable identifiers get distinct endpoints.
pub proof fn lemma_resolve_injective(base: u16, id1: u64, id2: u64)
    requires
        resolvable(base, id1),
        resolvable(base, id2),
    ensures
        id1 != id2 ==> endpoint_of(base, id1) != endpoint_of(base, id2),
{
}

} // verus!
