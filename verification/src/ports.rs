use vstd::prelude::*;

use crate::error::Error;
use rand::Rng;

verus! {

/// First port of the dynamic range a relay socket is bound in.
pub const DYNAMIC_PORT_FIRST: u16 = 49152;

/// End, not included, of the range a relay socket is bound in.
pub const DYNAMIC_PORT_END: u16 = 65535;

/// How many random ports are tried before binding a relay socket gives up.
pub const MAX_BIND_ATTEMPTS: u32 = 10;

/// Calls `rand::thread_rng().gen_range(low..high)`. The number depends on
/// chance: the contract states only the range it falls in, which rand
/// documents; rand panics on an empty range, which `requires` leaves out.
#[verifier::external_body]
fn random_in_range(low: u16, high: u16) -> (value: u16)
    requires
        low < high,
    ensures
        low <= value < high,
{
    rand::thread_rng().gen_range(low..high)
}

/// Message of a relay socket that found no free port.
pub open spec fn no_port_message() -> Seq<char> {
    "Cannot bind TCP port for connection"@
}

/// What binding a relay socket asks of its caller next.
#[derive(Debug, PartialEq, Eq)]
pub enum BindStep {
    /// Try to bind the socket to this port, then report whether it worked.
    Try(u16),
    /// The socket is bound to this port.
    Bound(u16),
    /// No port could be bound.
    Failed(Error),
}

/// Whether a port lies in the range relay sockets are bound in.
pub open spec fn in_dynamic_range(port: u16) -> bool {
    DYNAMIC_PORT_FIRST <= port < DYNAMIC_PORT_END
}

/// Binding a relay socket to a random port, giving up after a fixed number
/// of tries. It keeps the port it proposed last, so the port it reports bound
/// is always one it chose.
pub struct PortBinder {
    attempts: u32,
    proposed: u16,
}

impl PortBinder {
    /// How many ports have been tried so far.
    pub closed spec fn attempts_made(self) -> nat {
        self.attempts as nat
    }

    /// The port proposed last.
    pub closed spec fn proposed_port(self) -> u16 {
        self.proposed
    }

    /// Between one and the limit of tries made, and the proposed port in range.
    #[verifier::type_invariant]
    spec fn wf(self) -> bool {
        &&& 1 <= self.attempts <= MAX_BIND_ATTEMPTS
        &&& in_dynamic_range(self.proposed)
    }

    /// Starts binding: the first port to try.
    pub fn start() -> (started: (PortBinder, BindStep))
        ensures
            started.0.attempts_made() == 1,
            started.1 == BindStep::Try(started.0.proposed_port()),
            in_dynamic_range(started.0.proposed_port()),
    {
        let port = random_in_range(DYNAMIC_PORT_FIRST, DYNAMIC_PORT_END);
        (PortBinder { attempts: 1, proposed: port }, BindStep::Try(port))
    }

    /// Takes whether the proposed port could be bound: done with that port if
    /// so, else another random port while tries are left, else the failure.
    pub fn after_attempt(&mut self, bound: bool) -> (step: BindStep)
        ensures
            1 <= final(self).attempts_made() <= MAX_BIND_ATTEMPTS,
            in_dynamic_range(final(self).proposed_port()),
            step matches BindStep::Bound(port) ==> in_dynamic_range(port),
            step matches BindStep::Try(port) ==> in_dynamic_range(port),
            bound ==> step == BindStep::Bound(old(self).proposed_port())
                && final(self).attempts_made() == old(self).attempts_made()
                && final(self).proposed_port() == old(self).proposed_port(),
            !bound && old(self).attempts_made() < MAX_BIND_ATTEMPTS ==> step == BindStep::Try(final(self).proposed_port())
                && final(self).attempts_made() == old(self).attempts_made() + 1,
            !bound && old(self).attempts_made() == MAX_BIND_ATTEMPTS ==> (step matches BindStep::Failed(Error::ServerError(message))
                && message@ == no_port_message()
                && final(self).attempts_made() == old(self).attempts_made()),
    {
        proof {
            use_type_invariant(&*self);
        }
        if bound {
            BindStep::Bound(self.proposed)
        } else if self.attempts < MAX_BIND_ATTEMPTS {
            self.attempts = self.attempts + 1;
            self.proposed = random_in_range(DYNAMIC_PORT_FIRST, DYNAMIC_PORT_END);
            BindStep::Try(self.proposed)
        } else {
            BindStep::Failed(Error::ServerError(String::from_str("Cannot bind TCP port for connection")))
        }
    }
}

} // verus!
