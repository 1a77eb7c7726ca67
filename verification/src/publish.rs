//! What can be published.
use vstd::prelude::*;
use crate::buffer::Payload;
use crate::packet::QoS;
use crate::topic::TopicString;
use crate::Error;

verus! {

/// Something that can be published: users of the library implement it for their own types.
pub trait Publishable {
    /// Writes the topic to publish on into `buffer`.
    fn write_topic(&self, buffer: &mut TopicString) -> Result<(), Error>;

    /// Writes what to publish into `buffer`.
    fn write_payload(&self, buffer: &mut Payload) -> Result<(), Error>;

    /// The delivery to ask for.
    fn qos(&self) -> QoS;

    /// Whether the broker keeps the message for later subscribers.
    fn retain(&self) -> bool;
}

} // verus!
