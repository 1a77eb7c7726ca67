//! Topics.
use vstd::prelude::*;
use vstd::utf8::encode_utf8;
use crate::packet::TOPIC_LENGTH;
use crate::Error;

verus! {

/// The type `heapless::String`. Of a topic string, what it holds is called `topic_text`.
#[verifier::external_type_specification]
#[verifier::external_body]
pub struct ExString<const N: usize>(heapless::String<N>);

/// A fixed length stack allocated string. The length is fixed by the mqttrs crate.
pub type TopicString = heapless::String<TOPIC_LENGTH>;

/// The text that a topic string holds.
pub uninterp spec fn topic_text(topic: TopicString) -> Seq<char>;

/// `heapless::String::new`: the string is empty.
#[verifier::external_body]
pub(crate) fn empty_topic() -> (topic: TopicString)
    ensures
        topic_text(topic) == Seq::<char>::empty(),
{
    TopicString::new()
}

/// `heapless::String::try_from`: the string holds the text, which is refused where it takes more
/// bytes than the string can hold.
#[verifier::external_body]
fn topic_string(text: &str) -> (r: Result<TopicString, ()>)
    ensures
        r is Ok <==> encode_utf8(text@).len() <= TOPIC_LENGTH,
        r matches Ok(topic) ==> topic_text(topic) == text@,
{
    TopicString::try_from(text)
}

/// `heapless::String::as_str`: the text that the string holds.
#[verifier::external_body]
pub(crate) fn topic_str(topic: &TopicString) -> (text: &str)
    ensures
        text@ == topic_text(*topic),
{
    topic.as_str()
}

/// A topic, by its path.
#[derive(Debug)]
pub struct Topic<T> {
    pub path: T,
}

impl Topic<TopicString> {
    /// The topic with this path, or `TooLarge` where a topic string cannot hold it.
    pub fn from_str(path: &str) -> (r: Result<Self, Error>)
        ensures
            match r {
                Ok(topic) => {
                    &&& encode_utf8(path@).len() <= TOPIC_LENGTH
                    &&& topic_text(topic.path) == path@
                },
                Err(e) => encode_utf8(path@).len() > TOPIC_LENGTH && e == Error::TooLarge,
            },
    {
        match topic_string(path) {
            Ok(path) => Ok(Topic { path }),
            Err(_) => Err(Error::TooLarge),
        }
    }

    /// The path of the topic.
    pub fn as_str(&self) -> (path: &str)
        ensures
            path@ == topic_text(self.path),
    {
        topic_str(&self.path)
    }
}

} // verus!
