use vstd::prelude::*;

verus! {

/// Size of the buffer an acknowledgement's payload is read into.
pub const ACK_BUFFER_LEN: usize = 32;

/// The zeroed buffer an acknowledgement's payload is read into.
pub fn ack_buffer() -> (buffer: Vec<u8>)
    ensures
        buffer@ == Seq::new(ACK_BUFFER_LEN as nat, |i: int| 0u8),
{
    let mut buffer: Vec<u8> = Vec::new();
    let mut i: usize = 0;
    while i < ACK_BUFFER_LEN
        invariant
            i <= ACK_BUFFER_LEN,
            buffer@ == Seq::new(i as nat, |j: int| 0u8),
        decreases ACK_BUFFER_LEN - i,
    {
        buffer.push(0u8);
        i = i + 1;
        assert(buffer@ =~= Seq::new(i as nat, |j: int| 0u8));
    }
    buffer
}

/// The buffer brought to `length` bytes, as `Vec::resize` with zeros does:
/// cut to its first `length` bytes, or padded with zeros.
pub open spec fn resized(buffer: Seq<u8>, length: nat) -> Seq<u8> {
    if length <= buffer.len() {
        buffer.subrange(0, length as int)
    } else {
        buffer + Seq::new((length - buffer.len()) as nat, |i: int| 0u8)
    }
}

/// The payload of an acknowledgement: the buffer it was read into, brought
/// to the length the radio reported.
pub fn ack_payload(buffer: Vec<u8>, length: usize) -> (payload: Vec<u8>)
    ensures
        payload@ == resized(buffer@, length as nat),
{
    let mut payload = buffer;
    if length <= payload.len() {
        payload.truncate(length);
    } else {
        let ghost start = payload@;
        while payload.len() < length
            invariant
                start.len() <= payload@.len() <= length,
                payload@ == start + Seq::new((payload@.len() - start.len()) as nat, |i: int| 0u8),
            decreases length - payload@.len(),
        {
            payload.push(0u8);
            assert(payload@ =~= start + Seq::new((payload@.len() - start.len()) as nat, |i: int| 0u8));
        }
    }
    payload
}

} // verus!
