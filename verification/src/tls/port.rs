//! Ports that a loopback listener can stand on.

use vstd::prelude::*;

verus! {

/// A TCP port other than zero.
#[derive(Debug, Clone, Copy, PartialEq, Eq, PartialOrd, Ord, Hash)]
pub struct NonZeroPort(u16);

impl NonZeroPort {
    /// The port is not zero.
    #[verifier::type_invariant]
    spec fn well_formed(self) -> bool {
        self.0 != 0
    }

    /// The number of the port.
    pub closed spec fn view(self) -> u16 {
        self.0
    }

    /// Create a port from its number, if that is not zero.
    pub fn new(number: u16) -> (port: Option<Self>)
        ensures
            match port {
                Some(port) => number != 0 && port@ == number,
                None => number == 0,
            },
    {
        if number == 0 {
            None
        } else {
            Some(NonZeroPort(number))
        }
    }

    /// Return the number of the port.
    pub fn get(self) -> (number: u16)
        ensures
            number == self@,
            number != 0,
    {
        proof {
            use_type_invariant(&self);
        }
        self.0
    }
}

} // verus!
