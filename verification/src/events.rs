//! Event-sink framing: census snapshots go out as an envelope whose
//! payload is the concatenation of `(u64 little-endian length, bytes)`
//! records, one per census entry.
use vstd::prelude::*;
use vstd::string::*;
use byteorder::ByteOrder;
use byteorder::LittleEndian;
use crate::fsstate::copy_bytes;

verus! {

/// The eight little-endian bytes of `n`.
pub open spec fn spec_u64_le(n: u64) -> Seq<u8> {
    seq![
        (n & 0xff) as u8,
        ((n >> 8) & 0xff) as u8,
        ((n >> 16) & 0xff) as u8,
        ((n >> 24) & 0xff) as u8,
        ((n >> 32) & 0xff) as u8,
        ((n >> 40) & 0xff) as u8,
        ((n >> 48) & 0xff) as u8,
        ((n >> 56) & 0xff) as u8,
    ]
}

/// Relies on byteorder's `LittleEndian::write_u64`: it stores the eight
/// little-endian bytes of `n` into `buf[0..8]` and panics when
/// `buf.len() < 8`, so an eight-byte buffer becomes exactly those bytes.
#[verifier::external_body]
fn write_u64_le(buf: &mut Vec<u8>, n: u64)
    requires
        old(buf).len() == 8,
    ensures
        final(buf)@ == spec_u64_le(n),
{
    LittleEndian::write_u64(buf.as_mut_slice(), n);
}

/// The wire framing of a list of encoded entries: for each, its length
/// as a little-endian `u64`, then its bytes.
pub open spec fn spec_frame(entries: Seq<Seq<u8>>) -> Seq<u8>
    decreases entries.len(),
{
    if entries.len() == 0 {
        Seq::empty()
    } else {
        spec_u64_le(entries[0].len() as u64) + entries[0] + spec_frame(entries.skip(1))
    }
}

/// An eight-byte zeroed buffer.
fn size_buf() -> (r: Vec<u8>)
    ensures
        r@.len() == 8,
{
    let mut r: Vec<u8> = Vec::new();
    let mut i: usize = 0;
    while i < 8
        invariant
            r@.len() == i,
            i <= 8,
        decreases 8 - i,
    {
        r.push(0);
        i = i + 1;
    }
    r
}

/// Builds the length-prefixed payload for a list of encoded census
/// entries.
pub fn frame_event_payload(entries: &Vec<Vec<u8>>) -> (r: Vec<u8>)
    ensures
        r@ == spec_frame(entries@.map_values(|e: Vec<u8>| e@)),
{
    let ghost all = entries@.map_values(|e: Vec<u8>| e@);
    let mut payload: Vec<u8> = Vec::new();
    let mut i: usize = 0;
    while i < entries.len()
        invariant
            i <= entries@.len(),
            all == entries@.map_values(|e: Vec<u8>| e@),
            payload@ + spec_frame(all.skip(i as int)) == spec_frame(all.skip(0)),
        decreases entries@.len() - i,
    {
        proof {
            assert(all.skip(i as int)[0] == all[i as int]);
            assert(all.skip(i as int).skip(1) =~= all.skip(i as int + 1));
        }
        let mut size = size_buf();
        write_u64_le(&mut size, entries[i].len() as u64);
        let mut body = copy_bytes(&entries[i]);
        payload.append(&mut size);
        payload.append(&mut body);
        proof {
            assert(payload@ + spec_frame(all.skip(i as int + 1)) =~= spec_frame(all.skip(0)));
        }
        i = i + 1;
    }
    proof {
        assert(all.skip(i as int) =~= Seq::<Seq<u8>>::empty());
        assert(payload@ =~= spec_frame(all.skip(0)));
        assert(all.skip(0) =~= all);
    }
    payload
}

/// The envelope's payload encoding marker.
#[derive(Clone, Copy, PartialEq, Eq, Structural, Debug)]
pub enum EventType {
    ProtoBuf,
}

/// One envelope handed to the event-sink worker for transmission.
pub struct EventEnvelope {
    pub envelope_type: EventType,
    pub member_id: String,
    pub service: String,
    pub payload: Vec<u8>,
}

/// Wraps the framed census entries in an envelope attributed to this
/// supervisor.
pub fn build_event_envelope(member_id: String, entries: &Vec<Vec<u8>>) -> (r: EventEnvelope)
    ensures
        r.envelope_type == EventType::ProtoBuf,
        r.member_id == member_id,
        r.service@ == "habitat-sup"@,
        r.payload@ == spec_frame(entries@.map_values(|e: Vec<u8>| e@)),
{
    EventEnvelope {
        envelope_type: EventType::ProtoBuf,
        member_id,
        service: String::from_str("habitat-sup"),
        payload: frame_event_payload(entries),
    }
}

} // verus!
