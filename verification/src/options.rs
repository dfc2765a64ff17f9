//! Configuration carried by the surrounding process: connection targets for
//! the store and the bus, and the identity of a consumer.

use vstd::prelude::*;

verus! {

/// Connection targets the process wires the service with.
pub struct AppStateOptions {
    pub mongo_url: String,
    pub nats_url: String,
}

/// Connection target of the bus.
pub struct NatsOptions {
    pub nats_url: String,
}

/// Identity and subscription of one bus consumer.
pub struct NatsConsumerOptions {
    pub nats_url: String,
    pub recipient_id: String,
    pub channel: String,
    pub filter_subject: String,
}

} // verus!
