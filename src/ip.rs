//! The IPv4 datagram around a received ICMP message.
use vstd::prelude::*;

verus! {

/// Length in bytes of the IPv4 header that starts `b`: the IHL field, the low
/// four bits of the first byte, counts 32-bit words.
pub open spec fn ip_header_len(b: Seq<u8>) -> nat {
    (b[0] & 0x0F) as nat * 4
}

/// The view is valid when the buffer holds at least its declared header.
pub open spec fn holds_ip_header(b: Seq<u8>) -> bool {
    b.len() > 0 && ip_header_len(b) <= b.len()
}

/// The datagram's payload, which follows its header; `None` when the buffer
/// is empty or shorter than the header it declares.
pub fn strip_ip_header(raw: &[u8]) -> (r: Option<&[u8]>)
    ensures
        r is Some <==> holds_ip_header(raw@),
        r matches Some(p) ==> p@ == raw@.subrange(ip_header_len(raw@) as int, raw@.len() as int),
{
    if raw.len() == 0 {
        return None;
    }
    let header_len = (raw[0] & 0x0F) as usize * 4;
    if header_len > raw.len() {
        return None;
    }
    Some(vstd::slice::slice_subrange(raw, header_len, raw.len()))
}

} // verus!
