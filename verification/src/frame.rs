//! Splitting the byte stream that the broker sends into packets.
use vstd::prelude::*;
use crate::packet::{
    contents, first_byte, framed, layout, length_field, PacketView, MAX_REMAINING_LENGTH,
};

verus! {

/// The seven bits of a length byte that carry the length.
pub open spec fn low_bits(b: u8) -> nat {
    (b % 128) as nat
}

/// The size of the packet that starts `s`, read from its length field.
///
/// The length field follows the first byte and takes one to four bytes; a byte of 128 or more
/// says that another follows, and the first length byte is the least significant. `None` says
/// that the field is not complete; `Some(0)` that it does not end within four bytes. The size
/// counts the first byte and the length field itself.
pub open spec fn frame_size(s: Seq<u8>) -> Option<nat> {
    if s.len() < 2 {
        None
    } else if s[1] < 128 {
        Some(2 + low_bits(s[1]))
    } else if s.len() < 3 {
        None
    } else if s[2] < 128 {
        Some(3 + low_bits(s[1]) + 128 * low_bits(s[2]))
    } else if s.len() < 4 {
        None
    } else if s[3] < 128 {
        Some(4 + low_bits(s[1]) + 128 * low_bits(s[2]) + 16384 * low_bits(s[3]))
    } else if s.len() < 5 {
        None
    } else if s[4] < 128 {
        Some(
            5 + low_bits(s[1]) + 128 * low_bits(s[2]) + 16384 * low_bits(s[3]) + 2097152
                * low_bits(s[4]),
        )
    } else {
        Some(0)
    }
}

/// The size of the first byte and the length field of the packet that starts `s`.
pub open spec fn header_size(s: Seq<u8>) -> nat {
    if s[1] < 128 {
        2
    } else if s[2] < 128 {
        3
    } else if s[3] < 128 {
        4
    } else {
        5
    }
}

/// Where the contents of the packet that fills `frame` start.
pub(crate) fn body_start(frame: &[u8]) -> (start: usize)
    requires
        frame_size(frame@) == Some(frame@.len()),
    ensures
        start == header_size(frame@),
        start <= frame@.len(),
{
    if frame[1] < 128 {
        2
    } else if frame[2] < 128 {
        3
    } else if frame[3] < 128 {
        4
    } else {
        5
    }
}

/// The size of the packet that starts `buffer`, or `None` while its length field is not
/// complete. `Some(0)` says that the length field is invalid.
pub fn packet_size(buffer: &[u8]) -> (size: Option<usize>)
    ensures
        match size {
            Some(n) => frame_size(buffer@) == Some(n as nat),
            None => frame_size(buffer@) is None,
        },
{
    let mut pos: usize = 1;
    let mut multiplier: usize = 1;
    let mut value: usize = 0;

    while pos < buffer.len()
        invariant
            1 <= pos <= 4,
            pos > 1 ==> pos <= buffer.len(),
            forall|i: int| 1 <= i < pos ==> buffer@[i] >= 128,
            pos == 1 ==> multiplier == 1 && value == 0,
            pos == 2 ==> multiplier == 128 && value == low_bits(buffer@[1]),
            pos == 3 ==> multiplier == 16384 && value == low_bits(buffer@[1]) + 128 * low_bits(
                buffer@[2],
            ),
            pos == 4 ==> multiplier == 2097152 && value == low_bits(buffer@[1]) + 128 * low_bits(
                buffer@[2],
            ) + 16384 * low_bits(buffer@[3]),
        decreases buffer.len() - pos,
    {
        let byte: u8 = buffer[pos];
        assert(byte & 127 == byte % 128) by (bit_vector);
        assert(byte & 128 == 0 <==> byte < 128) by (bit_vector);
        let digit: usize = (byte & 127) as usize;
        assert(digit * multiplier == multiplier * digit && digit * multiplier <= 127
            * multiplier) by (nonlinear_arith)
            requires
                digit <= 127,
        ;
        value = value + digit * multiplier;
        multiplier = multiplier * 128;

        if (byte & 128) == 0 {
            return Some(value + pos + 1);
        }
        pos = pos + 1;
        if pos == 5 {
            return Some(0);
        }
    }
    None
}

/// A framed packet is read back by its length field: its size is the number of its bytes, and
/// its contents start where the length field ends.
pub proof fn law_framed_packet_has_its_size(first: u8, body: Seq<u8>)
    requires
        body.len() <= MAX_REMAINING_LENGTH,
    ensures
        frame_size(framed(first, body)) == Some(framed(first, body).len()),
        framed(first, body).skip(header_size(framed(first, body)) as int) == body,
        framed(first, body)[0] == first,
{
    let n = body.len();
    let s = framed(first, body);
    reveal_with_fuel(length_field, 4);
    assert(s.len() == 1 + length_field(n).len() + n);
    if n < 128 {
        assert(length_field(n) =~= seq![n as u8]);
        assert(s[1] == n as u8);
    } else if n < 16384 {
        let (a, b) = ((128 + n % 128) as u8, (n / 128) as u8);
        assert(length_field(n) =~= seq![a, b]);
        assert(s[1] == a && s[2] == b);
    } else if n < 2097152 {
        let (a, b, c) = (
            (128 + n % 128) as u8,
            (128 + n / 128 % 128) as u8,
            (n / 128 / 128) as u8,
        );
        assert(length_field(n) =~= seq![a, b, c]);
        assert(s[1] == a && s[2] == b && s[3] == c);
    } else {
        let (a, b, c, d) = (
            (128 + n % 128) as u8,
            (128 + n / 128 % 128) as u8,
            (128 + n / 128 / 128 % 128) as u8,
            (n / 128 / 128 / 128) as u8,
        );
        assert(length_field(n) =~= seq![a, b, c, d]);
        assert(s[1] == a && s[2] == b && s[3] == c && s[4] == d);
    }
    assert(s.skip(header_size(s) as int) =~= body);
}

/// A complete length field is read in the same way whatever follows it.
pub proof fn law_size_does_not_depend_on_what_follows(s: Seq<u8>, t: Seq<u8>)
    requires
        frame_size(s) is Some,
    ensures
        frame_size(s + t) == frame_size(s),
{
}

/// Every packet that fits the length field is as long as its length field says, and its contents
/// follow the length field.
pub proof fn law_sent_packet_has_its_size(p: PacketView)
    requires
        contents(p).len() <= MAX_REMAINING_LENGTH,
    ensures
        frame_size(layout(p)) == Some(layout(p).len()),
        layout(p).skip(header_size(layout(p)) as int) == contents(p),
        layout(p)[0] == first_byte(p),
{
    law_framed_packet_has_its_size(first_byte(p), contents(p));
}

/// The number that `bytes` hold in the lower seven bits of each, the least significant first.
pub open spec fn seven_bit_number(bytes: Seq<u8>) -> nat
    decreases bytes.len(),
{
    if bytes.len() == 0 {
        0
    } else {
        (bytes[0] % 128) as nat + 128 * seven_bit_number(bytes.drop_first())
    }
}

/// The length field ends with its first byte under 128. The number in it says how many bytes
/// follow it, in however many bytes it is written.
pub proof fn law_size_is_read_from_the_length_field(s: Seq<u8>, last: int)
    requires
        1 <= last <= 4,
        last < s.len(),
        s[last] < 128,
        forall|i: int| 1 <= i < last ==> #[trigger] s[i] >= 128,
    ensures
        frame_size(s) == Some((last + 1 + seven_bit_number(s.subrange(1, last + 1))) as nat),
        header_size(s) == last + 1,
{
    let f = s.subrange(1, last + 1);
    reveal_with_fuel(seven_bit_number, 5);
    assert(f[0] == s[1]);
    if last == 1 {
        assert(f.drop_first().len() == 0);
    } else if last == 2 {
        assert(s[1] >= 128);
        assert(f.drop_first() =~= seq![s[2]]);
        assert(f.drop_first().drop_first().len() == 0);
    } else if last == 3 {
        assert(s[1] >= 128 && s[2] >= 128);
        assert(f.drop_first() =~= seq![s[2], s[3]]);
        assert(f.drop_first().drop_first() =~= seq![s[3]]);
        assert(f.drop_first().drop_first().drop_first().len() == 0);
    } else {
        assert(s[1] >= 128 && s[2] >= 128 && s[3] >= 128);
        assert(f.drop_first() =~= seq![s[2], s[3], s[4]]);
        assert(f.drop_first().drop_first() =~= seq![s[3], s[4]]);
        assert(f.drop_first().drop_first().drop_first() =~= seq![s[4]]);
        assert(f.drop_first().drop_first().drop_first().drop_first().len() == 0);
    }
}

/// A length field that has not ended is waited for, up to four bytes; after that it is invalid.
pub proof fn law_length_field_ends_within_four_bytes(s: Seq<u8>)
    requires
        forall|i: int| 1 <= i < s.len() && i < 5 ==> #[trigger] s[i] >= 128,
    ensures
        frame_size(s) == if s.len() < 5 {
            None
        } else {
            Some(0nat)
        },
{
    assert(s.len() > 1 ==> s[1] >= 128);
    assert(s.len() > 2 ==> s[2] >= 128);
    assert(s.len() > 3 ==> s[3] >= 128);
    assert(s.len() > 4 ==> s[4] >= 128);
}

} // verus!
