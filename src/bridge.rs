use vstd::prelude::*;
use crate::envelope::{Envelope, Lane, frame_line, has_no_newline, no_newline};
use crate::resolver::{Endpoint, Resolver, endpoint_of, resolvable};

verus! {

/// One outbound bridge leg: takes what the engine sends on `lane` and
/// addresses it to the destination node.
#[derive(Clone, Copy, Debug, PartialEq, Eq, Structural)]
pub struct Pump {
    pub lane: Lane,
    pub resolver: Resolver,
}

impl Pump {
    pub fn new(lane: Lane, resolver: Resolver) -> (r: Pump)
        ensures
            r.lane == lane,
            r.resolver == resolver,
    {
        Pump { lane, resolver }
    }

    /// Where to send `payload`, bound for node `to`, and the line to write
    /// there. `None` where the node has no endpoint or the payload cannot
    /// stand on one line: the message is then dropped. Each message is
    /// handled on its own; a dropped one leaves the leg as it was.
    pub fn prepare(&self, to: u64, payload: String) -> (r: Option<(Endpoint, String)>)
        ensures
            r is Some <==> (resolvable(self.resolver.base_port, to) && no_newline(payload@)),
            r matches Some((endpoint, line)) ==> endpoint == endpoint_of(
                self.resolver.base_port,
                to,
            ) && line@ == frame_line(self.lane, payload@),
    {
        if !self.resolver.can_resolve(to) || !has_no_newline(payload.as_str()) {
            return None;
        }
        let endpoint = self.resolver.resolve(to);
        let envelope = Envelope { lane: self.lane, payload };
        Some((endpoint, envelope.encode()))
    }
}

} // verus!
