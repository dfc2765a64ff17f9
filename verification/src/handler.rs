//! The handler a bus consumer hands each delivered message to. The
//! consumers run outside the library; they implement this for whatever
//! their delivery does.

use vstd::prelude::*;

verus! {

/// Consumes one delivered message payload.
pub trait MessageHandler {
    fn handle_message(&self, message: &str);
}

} // verus!
