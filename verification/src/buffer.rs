//! A buffer of limited size for payloads and encoded packets.
use vstd::prelude::*;
use crate::codec::encode;
use crate::packet::{layout, Packet};
use crate::pipe::Clean;
use crate::Error;

verus! {

/// The number of bytes that a payload can hold.
pub const PAYLOAD_LENGTH: usize = 2048;

/// A buffer of at most `N` bytes.
#[derive(Debug)]
pub struct Buffer<const N: usize> {
    bytes: Vec<u8>,
}

/// A fixed length buffer of 2048 bytes.
pub type Payload = Buffer<PAYLOAD_LENGTH>;

impl<const N: usize> View for Buffer<N> {
    type V = Seq<u8>;

    /// The bytes that the buffer holds.
    closed spec fn view(&self) -> Seq<u8> {
        self.bytes@
    }
}

impl<const N: usize> Buffer<N> {
    #[verifier::type_invariant]
    spec fn limited(self) -> bool {
        self.bytes@.len() <= N
    }

    /// An empty buffer.
    pub fn new() -> (buffer: Self)
        ensures
            buffer@ == Seq::<u8>::empty(),
    {
        Buffer { bytes: Vec::new() }
    }

    /// A buffer that holds `bytes`, or `TooLarge` where there are more than `N` of them.
    pub fn from(bytes: &[u8]) -> (r: Result<Self, Error>)
        ensures
            match r {
                Ok(buffer) => bytes@.len() <= N && buffer@ == bytes@,
                Err(e) => bytes@.len() > N && e == Error::TooLarge,
            },
    {
        if bytes.len() > N {
            return Err(Error::TooLarge);
        }
        let mut copy: Vec<u8> = Vec::new();
        copy.extend_from_slice(bytes);
        assert(copy@ =~= bytes@);
        Ok(Buffer { bytes: copy })
    }

    /// The bytes that the buffer holds.
    pub fn as_slice(&self) -> (bytes: &[u8])
        ensures
            bytes@ == self@,
            bytes@.len() <= N,
    {
        proof {
            use_type_invariant(self);
        }
        self.bytes.as_slice()
    }
}

impl Buffer<PAYLOAD_LENGTH> {
    /// Appends a packet. A packet that does not fit leaves the buffer as it is.
    pub fn encode_packet(&mut self, packet: &Packet<'_>) -> (r: Result<(), Error>)
        requires
            packet@.fits(),
        ensures
            match r {
                Ok(()) => {
                    &&& old(self)@.len() + layout(packet@).len() <= PAYLOAD_LENGTH
                    &&& final(self)@ == old(self)@ + layout(packet@)
                },
                Err(e) => {
                    &&& old(self)@.len() + layout(packet@).len() > PAYLOAD_LENGTH
                    &&& e == Error::PacketError
                    &&& final(self)@ == old(self)@
                },
            },
    {
        proof {
            use_type_invariant(&*self);
        }
        let mut room: Vec<u8> = Vec::new();
        room.resize(PAYLOAD_LENGTH - self.bytes.len(), 0);
        let n: usize = match encode(packet, &mut room) {
            Ok(n) => n,
            Err(e) => {
                return Err(e);
            },
        };
        room.truncate(n);
        assert(room@ =~= layout(packet@));
        let mut bytes: Vec<u8> = Vec::new();
        std::mem::swap(&mut bytes, &mut self.bytes);
        bytes.append(&mut room);
        self.bytes = bytes;
        Ok(())
    }
}

impl<const N: usize> Clean for Buffer<N> {
    open spec fn is_clean(&self) -> bool {
        self@ == Seq::<u8>::empty()
    }

    fn clean(&mut self) {
        self.bytes = Vec::new();
    }
}

/// A buffer that can be reused holds nothing of its earlier use.
pub proof fn law_clean_buffer_is_empty<const N: usize>(buffer: Buffer<N>)
    ensures
        buffer.is_clean() <==> buffer@.len() == 0,
{
    assert(buffer@.len() == 0 ==> buffer@ =~= Seq::<u8>::empty());
}

} // verus!
