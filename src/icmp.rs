//! ICMP Echo messages (RFC 792) and their wire format.
//!
//! ```text
//! Offset
//! (octet)  0               1               2               3
//!      0   |     Type      |     Code      |           Checksum            |
//!      4   |          Identifier           |        Sequence Number        |
//!      8   |     Data ...
//! ```
use vstd::prelude::*;

use crate::checksum::{be_word, checksum, internet_checksum, lemma_checksum_zero_sum};

verus! {

/// What can go wrong when a message is written or read.
#[derive(Debug, Clone, Copy, PartialEq, Eq, Structural)]
pub enum Error {
    /// The destination buffer is too small to hold the encoded message.
    BufTooSmall,
    /// The bytes do not hold a complete ICMP header.
    PayloadTooSmall,
}

/// An ICMP Echo message, with the time at which it was created.
///
/// The timestamp is a reading of the caller's monotonic clock, in
/// microseconds; it is not part of the wire format, and decoded messages
/// carry zero there.
#[derive(Debug, PartialEq, Eq)]
pub struct IcmpMessage {
    msg_type: u8,
    code: u8,
    checksum: u16,
    identifier: u16,
    seq_num: u16,
    data: Option<Vec<u8>>,
    timestamp: u64,
}

/// The mathematical content of an [`IcmpMessage`].
pub struct IcmpMessageView {
    pub msg_type: u8,
    pub code: u8,
    pub checksum: u16,
    pub identifier: u16,
    pub seq_num: u16,
    pub data: Option<Seq<u8>>,
    pub timestamp: u64,
}

impl View for IcmpMessage {
    type V = IcmpMessageView;

    closed spec fn view(&self) -> IcmpMessageView {
        IcmpMessageView {
            msg_type: self.msg_type,
            code: self.code,
            checksum: self.checksum,
            identifier: self.identifier,
            seq_num: self.seq_num,
            data: match self.data {
                Some(d) => Some(d@),
                None => None,
            },
            timestamp: self.timestamp,
        }
    }
}

/// Type of an Echo Request.
pub const ECHO_REQUEST: u8 = 8;

/// High-order byte of a 16-bit value.
pub open spec fn hi_byte(x: u16) -> u8 {
    (x / 256) as u8
}

/// Low-order byte of a 16-bit value.
pub open spec fn lo_byte(x: u16) -> u8 {
    (x % 256) as u8
}

/// The 16-bit value of two bytes in network byte order.
pub open spec fn be_u16(hi: u8, lo: u8) -> u16 {
    be_word(hi, lo) as u16
}

impl IcmpMessageView {
    /// The bytes that follow the header.
    pub open spec fn payload(self) -> Seq<u8> {
        match self.data {
            Some(d) => d,
            None => Seq::empty(),
        }
    }

    /// Number of bytes the message takes on the wire.
    pub open spec fn serialized_len(self) -> nat {
        8 + self.payload().len()
    }

    /// The wire bytes with the checksum field still zero.
    pub open spec fn unchecked_bytes(self) -> Seq<u8> {
        seq![
            self.msg_type,
            self.code,
            0u8,
            0u8,
            hi_byte(self.identifier),
            lo_byte(self.identifier),
            hi_byte(self.seq_num),
            lo_byte(self.seq_num),
        ] + self.payload()
    }

    /// The wire bytes: the checksum over the unchecked bytes is patched in
    /// at offset 2, high-order byte first.
    pub open spec fn encode(self) -> Seq<u8> {
        let b = self.unchecked_bytes();
        let c = internet_checksum(b);
        b.update(2, hi_byte(c)).update(3, lo_byte(c))
    }

    /// The message with another checksum field.
    pub open spec fn with_checksum(self, checksum: u16) -> IcmpMessageView {
        IcmpMessageView { checksum, ..self }
    }
}

/// The message that a buffer of at least eight bytes holds; what follows the
/// header, if anything, is its data.
pub open spec fn decoded(b: Seq<u8>) -> IcmpMessageView {
    IcmpMessageView {
        msg_type: b[0],
        code: b[1],
        checksum: be_u16(b[2], b[3]),
        identifier: be_u16(b[4], b[5]),
        seq_num: be_u16(b[6], b[7]),
        data: if b.len() > 8 {
            Some(b.subrange(8, b.len() as int))
        } else {
            None
        },
        timestamp: 0,
    }
}

/// Decoding: a complete header gives a message, anything shorter an error.
pub open spec fn decode(b: Seq<u8>) -> Result<IcmpMessageView, Error> {
    if b.len() < 8 {
        Err(Error::PayloadTooSmall)
    } else {
        Ok(decoded(b))
    }
}

/// The view of a decoding result.
pub open spec fn result_view(r: Result<IcmpMessage, Error>) -> Result<IcmpMessageView, Error> {
    match r {
        Ok(m) => Ok(m@),
        Err(e) => Err(e),
    }
}

proof fn lemma_word_of_bytes(w: u16)
    ensures
        be_u16(hi_byte(w), lo_byte(w)) == w,
{
    assert((w as nat / 256) * 256 + w as nat % 256 == w as nat) by (nonlinear_arith);
}

/// Decoding the encoding of a message gives the message back, with the
/// checksum field set to the checksum that was written, and the encoded bytes
/// sum to zero. Data that is present but empty comes back absent, and the
/// timestamp, which is not on the wire, comes back as zero.
pub proof fn lemma_round_trip(m: IcmpMessageView)
    requires
        m.data != Some(Seq::<u8>::empty()),
    ensures
        decode(m.encode()) == Ok::<IcmpMessageView, Error>(
            m.with_checksum(internet_checksum(m.unchecked_bytes())).with_timestamp(0),
        ),
        internet_checksum(m.encode()) == 0,
{
    let b = m.unchecked_bytes();
    let c = internet_checksum(b);
    let e = m.encode();
    lemma_checksum_zero_sum(b);
    lemma_word_of_bytes(c);
    lemma_word_of_bytes(m.identifier);
    lemma_word_of_bytes(m.seq_num);
    let d = decoded(e);
    assert(e.len() == b.len() && e[0] == m.msg_type && e[1] == m.code);
    assert(e[4] == hi_byte(m.identifier) && e[5] == lo_byte(m.identifier));
    assert(e[6] == hi_byte(m.seq_num) && e[7] == lo_byte(m.seq_num));
    if e.len() > 8 {
        assert(e.subrange(8, e.len() as int) =~= m.payload());
        assert(m.data is Some);
    } else {
        if let Some(x) = m.data {
            assert(x =~= Seq::<u8>::empty());
        }
    }
    assert(d == m.with_checksum(c).with_timestamp(0));
}

impl IcmpMessageView {
    /// The message with another timestamp.
    pub open spec fn with_timestamp(self, timestamp: u64) -> IcmpMessageView {
        IcmpMessageView { timestamp, ..self }
    }
}

impl IcmpMessage {
    /// Length of the fixed header.
    pub const ICMP_HEADER_LEN: usize = 8;

    /// The message's data fits, with the header, in a `usize` length.
    pub open spec fn wf(&self) -> bool {
        self@.serialized_len() <= usize::MAX
    }

    /// An Echo Request with identifier 0, a zero checksum field, the given
    /// sequence number and data, created at `timestamp`.
    pub fn new_request(seq_num: u16, data: Option<&[u8]>, timestamp: u64) -> (r: Self)
        requires
            data matches Some(d) ==> d@.len() + 8 <= usize::MAX,
        ensures
            r.wf(),
            r@ == (IcmpMessageView {
                msg_type: ECHO_REQUEST,
                code: 0,
                checksum: 0,
                identifier: 0,
                seq_num,
                data: match data {
                    Some(d) => Some(d@),
                    None => None,
                },
                timestamp,
            }),
    {
        let data = match data {
            Some(d) => Some(vstd::slice::slice_to_vec(d)),
            None => None,
        };
        IcmpMessage { msg_type: ECHO_REQUEST, code: 0, checksum: 0, identifier: 0, seq_num, data, timestamp }
    }

    /// Writes the message at the start of `buf`, with its checksum computed
    /// over the written bytes; the rest of `buf` is left as it was. A buffer
    /// shorter than the message is refused and left untouched.
    pub fn serialize_packet(&self, buf: &mut [u8]) -> (r: Result<(), Error>)
        requires
            self.wf(),
        ensures
            old(buf)@.len() < self@.serialized_len() ==> r == Err::<(), Error>(Error::BufTooSmall)
                && final(buf)@ == old(buf)@,
            old(buf)@.len() >= self@.serialized_len() ==> r == Ok::<(), Error>(()) && final(buf)@
                == self@.encode() + old(buf)@.subrange(
                self@.serialized_len() as int,
                old(buf)@.len() as int,
            ),
    {
        let len = self.serialized_len();
        if buf.len() < len {
            return Err(Error::BufTooSmall);
        }
        let mut bytes: Vec<u8> = Vec::with_capacity(len);
        bytes.push(self.msg_type);
        bytes.push(self.code);
        bytes.push(0);
        bytes.push(0);
        bytes.push((self.identifier / 256) as u8);
        bytes.push((self.identifier % 256) as u8);
        bytes.push((self.seq_num / 256) as u8);
        bytes.push((self.seq_num % 256) as u8);
        let ghost header = bytes@;
        if let Some(d) = &self.data {
            let mut i: usize = 0;
            while i < d.len()
                invariant
                    i <= d@.len(),
                    bytes@ == header + d@.subrange(0, i as int),
                decreases d@.len() - i,
            {
                bytes.push(d[i]);
                i += 1;
            }
            assert(d@.subrange(0, d@.len() as int) =~= d@);
        }
        assert(bytes@ =~= self@.unchecked_bytes());
        let c = checksum(bytes.as_slice());
        bytes.set(2, (c / 256) as u8);
        bytes.set(3, (c % 256) as u8);
        assert(bytes@ =~= self@.encode());
        let ghost tail = buf@.subrange(len as int, buf@.len() as int);
        let ghost n = buf@.len();
        let mut i: usize = 0;
        while i < len
            invariant
                i <= len,
                buf@.len() == n,
                len == bytes@.len(),
                len <= buf@.len(),
                buf@.subrange(0, i as int) =~= bytes@.subrange(0, i as int),
                buf@.subrange(len as int, buf@.len() as int) == tail,
            decreases len - i,
        {
            buf[i] = bytes[i];
            i += 1;
            assert(buf@.subrange(len as int, buf@.len() as int) =~= tail);
        }
        assert(bytes@.subrange(0, len as int) =~= bytes@);
        assert(buf@ =~= buf@.subrange(0, len as int) + buf@.subrange(len as int, n as int));
        Ok(())
    }

    /// Reads a message from the start of `payload`; whatever follows the
    /// header becomes its data. The checksum is read, not checked.
    pub fn deserialize_packet(payload: &[u8]) -> (r: Result<Self, Error>)
        ensures
            result_view(r) == decode(payload@),
            r matches Ok(m) ==> m.wf(),
    {
        if payload.len() < Self::ICMP_HEADER_LEN {
            return Err(Error::PayloadTooSmall);
        }
        let data = if payload.len() > Self::ICMP_HEADER_LEN {
            Some(vstd::slice::slice_to_vec(vstd::slice::slice_subrange(payload, 8, payload.len())))
        } else {
            None
        };
        let msg = IcmpMessage {
            msg_type: payload[0],
            code: payload[1],
            checksum: read_u16(payload[2], payload[3]),
            identifier: read_u16(payload[4], payload[5]),
            seq_num: read_u16(payload[6], payload[7]),
            data,
            timestamp: 0,
        };
        Ok(msg)
    }

    /// The message type: 8 for a request, 0 for a reply.
    pub fn msg_type(&self) -> (r: u8)
        ensures
            r == self@.msg_type,
    {
        self.msg_type
    }

    /// The message code.
    pub fn code(&self) -> (r: u8)
        ensures
            r == self@.code,
    {
        self.code
    }

    /// The checksum field as it stands in the message.
    pub fn checksum(&self) -> (r: u16)
        ensures
            r == self@.checksum,
    {
        self.checksum
    }

    /// The identifier.
    pub fn identifier(&self) -> (r: u16)
        ensures
            r == self@.identifier,
    {
        self.identifier
    }

    /// The data that follows the header, if any.
    pub fn data(&self) -> (r: Option<&[u8]>)
        ensures
            r is Some <==> self@.data is Some,
            r matches Some(d) ==> self@.data == Some(d@),
    {
        match &self.data {
            Some(d) => Some(d.as_slice()),
            None => None,
        }
    }

    /// When the message was created.
    pub fn timestamp(&self) -> (r: u64)
        ensures
            r == self@.timestamp,
    {
        self.timestamp
    }

    /// The sequence number.
    pub fn seq_num(&self) -> (r: u16)
        ensures
            r == self@.seq_num,
    {
        self.seq_num
    }

    /// Number of bytes the message takes on the wire.
    pub fn serialized_len(&self) -> (r: usize)
        requires
            self.wf(),
        ensures
            r == self@.serialized_len(),
    {
        match &self.data {
            Some(d) => Self::ICMP_HEADER_LEN + d.len(),
            None => Self::ICMP_HEADER_LEN,
        }
    }
}

/// The 16-bit value of two bytes in network byte order.
fn read_u16(hi: u8, lo: u8) -> (r: u16)
    ensures
        r == be_u16(hi, lo),
{
    hi as u16 * 256 + lo as u16
}

} // verus!
