//! A small writer of JSON text into a byte buffer.

use vstd::prelude::*;
use vstd::string::*;
use vstd::utf8::encode_utf8;
use bytes::Bytes;
use crate::text::signed_decimal;

verus! {

#[verifier::external_type_specification]
#[verifier::external_body]
pub struct ExBytes(Bytes);

/// The bytes that a `Bytes` buffer holds.
pub uninterp spec fn bytes_of(b: Bytes) -> Seq<u8>;

/// `Bytes::from` takes a vector over; the buffer then holds the vector's
/// bytes, in order.
#[verifier::external_body]
pub(crate) fn bytes_from_vec(v: Vec<u8>) -> (b: Bytes)
    ensures
        bytes_of(b) == v@,
{
    Bytes::from(v)
}

/// `Bytes::clone` gives a second handle on the same bytes.
#[verifier::external_body]
pub(crate) fn bytes_clone(b: &Bytes) -> (c: Bytes)
    ensures
        bytes_of(c) == bytes_of(*b),
{
    b.clone()
}

/// `itoa::Buffer::format` prints an integer in decimal: its digits without
/// leading zeros, behind a minus sign where it is negative.
#[verifier::external_body]
pub(crate) fn decimal_text(v: i64) -> (s: String)
    ensures
        s@ == signed_decimal(v as int),
{
    let mut buffer = itoa::Buffer::new();
    buffer.format(v).to_string()
}

/// What stands for one byte of a string inside JSON quotes: a backslash
/// form for the quote, the backslash, line feed, carriage return and tab,
/// and the byte itself for every other.
pub open spec fn escaped_byte(b: u8) -> Seq<u8> {
    if b == 0x22 {
        seq![0x5cu8, 0x22u8]
    } else if b == 0x5c {
        seq![0x5cu8, 0x5cu8]
    } else if b == 0x0a {
        seq![0x5cu8, 0x6eu8]
    } else if b == 0x0d {
        seq![0x5cu8, 0x72u8]
    } else if b == 0x09 {
        seq![0x5cu8, 0x74u8]
    } else {
        seq![b]
    }
}

/// The escaped form of a run of bytes.
pub open spec fn escaped(bytes: Seq<u8>) -> Seq<u8>
    decreases bytes.len(),
{
    if bytes.len() == 0 {
        Seq::empty()
    } else {
        escaped(bytes.drop_last()) + escaped_byte(bytes.last())
    }
}

/// A text as a JSON string: its UTF-8 bytes, escaped, between quotes.
pub open spec fn json_string(text: Seq<char>) -> Seq<u8> {
    seq![0x22u8] + escaped(encode_utf8(text)) + seq![0x22u8]
}

/// An integer as a JSON number.
pub open spec fn json_int(v: int) -> Seq<u8> {
    encode_utf8(signed_decimal(v))
}

/// A growing buffer of JSON text.
pub struct JsonWriter {
    buf: Vec<u8>,
}

impl View for JsonWriter {
    type V = Seq<u8>;

    closed spec fn view(&self) -> Seq<u8> {
        self.buf@
    }
}

impl JsonWriter {
    /// An empty writer with room for `cap` bytes.
    pub fn with_capacity(cap: usize) -> (w: Self)
        ensures
            w@ == Seq::<u8>::empty(),
    {
        Self { buf: Vec::with_capacity(cap) }
    }

    /// Appends bytes as they are.
    pub fn write_raw(&mut self, s: &[u8])
        ensures
            final(self)@ == old(self)@ + s@,
    {
        self.buf.extend_from_slice(s);
    }

    /// Appends a text as a JSON string.
    pub fn write_str_value(&mut self, s: &str)
        ensures
            final(self)@ == old(self)@ + json_string(s@),
    {
        self.buf.push(0x22u8);
        let bytes = s.as_bytes();
        let mut i: usize = 0;
        while i < bytes.len()
            invariant
                i <= bytes.len(),
                bytes@ == encode_utf8(s@),
                self.buf@ == old(self).buf@ + seq![0x22u8] + escaped(bytes@.take(i as int)),
            decreases bytes.len() - i,
        {
            let b = bytes[i];
            proof {
                assert(bytes@.take(i + 1).drop_last() =~= bytes@.take(i as int));
            }
            if b == 0x22u8 {
                self.buf.push(0x5cu8);
                self.buf.push(0x22u8);
            } else if b == 0x5cu8 {
                self.buf.push(0x5cu8);
                self.buf.push(0x5cu8);
            } else if b == 0x0au8 {
                self.buf.push(0x5cu8);
                self.buf.push(0x6eu8);
            } else if b == 0x0du8 {
                self.buf.push(0x5cu8);
                self.buf.push(0x72u8);
            } else if b == 0x09u8 {
                self.buf.push(0x5cu8);
                self.buf.push(0x74u8);
            } else {
                self.buf.push(b);
            }
            i = i + 1;
        }
        proof {
            assert(bytes@.take(i as int) =~= bytes@);
        }
        self.buf.push(0x22u8);
    }

    /// Appends an integer as a JSON number.
    pub fn write_i64(&mut self, v: i64)
        ensures
            final(self)@ == old(self)@ + json_int(v as int),
    {
        let s = decimal_text(v);
        self.buf.extend_from_slice(s.as_str().as_bytes());
    }

    /// Hands the written bytes over as a shared buffer.
    pub fn into_bytes(self) -> (b: Bytes)
        ensures
            bytes_of(b) == self@,
    {
        bytes_from_vec(self.buf)
    }
}

} // verus!
