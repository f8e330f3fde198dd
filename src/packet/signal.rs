use super::{
    eof, holds_sized, lemma_sized_round_trip, sized_layout, sized_outcome, PacketBuf,
    PacketBufCodec, PacketBufReader, PacketBufWriter,
};
use crate::plain::Plain;
use crate::signal::{lenient_signal_of, repr_of, signal_of, SyncSignal};
use crate::Error;
use vstd::prelude::*;

verus! {

/// A signal with an opaque payload: the unit of exchange between the two endpoints.
///
/// On the wire it is the signal's byte, then the payload as a length-prefixed byte
/// sequence (a `usize` count in the machine's layout, then the bytes).
#[derive(Debug, Clone)]
pub struct SyncSignalPacket {
    /// Signal type
    pub signal: SyncSignal,
    /// Payload of this packet
    pub payload: Vec<u8>,
}

/// The bytes that frame a packet of `signal` and `payload`.
pub open spec fn packet_layout(signal: SyncSignal, payload: Seq<u8>) -> Seq<u8> {
    seq![repr_of(signal)] + sized_layout::<u8>(payload)
}

/// `bytes` frames a packet of `signal` and `payload`: the signal's byte, then a
/// length-prefixed sequence that reads back as the payload.
pub open spec fn frames_packet(bytes: Seq<u8>, signal: SyncSignal, payload: Seq<u8>) -> bool {
    &&& bytes.len() >= 1
    &&& bytes[0] == repr_of(signal)
    &&& holds_sized::<u8>(bytes.skip(1), payload)
}

/// What decoding `bytes` gives: a signal (unknown bytes read as `Sending`) and a payload,
/// or an unexpected end when the tag, the length or the payload is cut short.
pub open spec fn decode_outcome(bytes: Seq<u8>) -> Result<(SyncSignal, Seq<u8>), Error> {
    if bytes.len() < 1 {
        Err(eof())
    } else {
        match sized_outcome::<u8>(bytes.skip(1)) {
            None => Err(eof()),
            Some((payload, _)) => Ok((lenient_signal_of(bytes[0]), payload)),
        }
    }
}

/// What strict decoding of `bytes` gives: as [`decode_outcome`], except that a tag that
/// names no signal is refused at offset 0.
pub open spec fn strict_decode_outcome(bytes: Seq<u8>) -> Result<(SyncSignal, Seq<u8>), Error> {
    if bytes.len() >= 1 && signal_of(bytes[0]) is None {
        Err(Error::UnknownPacketLayout(0))
    } else {
        decode_outcome(bytes)
    }
}

impl Default for SyncSignalPacket {
    fn default() -> (r: SyncSignalPacket)
        ensures
            r.signal == SyncSignal::Sending,
            r.payload@ == Seq::<u8>::empty(),
    {
        SyncSignalPacket { signal: SyncSignal::Sending, payload: Vec::new() }
    }
}

impl SyncSignalPacket {
    /// A packet of `signal` with an empty payload.
    pub fn new(signal: SyncSignal) -> (r: SyncSignalPacket)
        ensures
            r.signal == signal,
            r.payload@ == Seq::<u8>::empty(),
    {
        SyncSignalPacket { signal, payload: Vec::new() }
    }

    /// Decodes as [`PacketBufCodec::decode`] does, but refuses a tag byte that names no
    /// signal with [`Error::UnknownPacketLayout`] at offset 0 instead of reading it as
    /// `Sending`.
    pub fn decode_strict(buf: PacketBuf) -> (r: Result<SyncSignalPacket, Error>)
        ensures
            match strict_decode_outcome(buf@) {
                Ok((signal, payload)) => r matches Ok(p) && p.signal == signal && p.payload@
                    == payload,
                Err(e) => r matches Err(f) && f == e,
            },
    {
        if buf.len() >= 1 {
            let tag = buf.as_slice()[0];
            if SyncSignal::from_repr(tag).is_none() {
                return Err(Error::UnknownPacketLayout(0));
            }
        }
        <SyncSignalPacket as PacketBufCodec>::decode(buf)
    }
}

impl PacketBufCodec for SyncSignalPacket {
    /// Writes the signal's byte, then the payload as a length-prefixed sequence.
    fn encode(self) -> (r: Result<PacketBuf, Error>)
        ensures
            r matches Ok(b) && b@ == packet_layout(self.signal, self.payload@) && frames_packet(
                b@,
                self.signal,
                self.payload@,
            ),
    {
        let len = self.payload.len();
        let capacity = if len < usize::MAX {
            len + 1
        } else {
            len
        };
        let mut buffer: PacketBufWriter = PacketBuf::with_capacity(capacity).into();
        let tag = self.signal.repr();
        let _ = buffer.write(tag);
        let _ = buffer.write_slice(self.payload.as_slice());
        let out = buffer.into_inner();
        proof {
            assert(out@ =~= packet_layout(self.signal, self.payload@));
            assert(out@.skip(1) =~= sized_layout::<u8>(self.payload@));
        }
        Ok(out)
    }

    /// Reads the tag byte (a byte above 3 reads as `Sending`), then the length-prefixed
    /// payload.
    fn decode(buf: PacketBuf) -> (r: Result<SyncSignalPacket, Error>)
        ensures
            match decode_outcome(buf@) {
                Ok((signal, payload)) => r matches Ok(p) && p.signal == signal && p.payload@
                    == payload,
                Err(e) => r matches Err(f) && f == e,
            },
    {
        let ghost bytes = buf@;
        let mut reader = PacketBufReader::new(buf);
        let tag = match reader.read::<u8>() {
            Ok(t) => t,
            Err(e) => {
                return Err(e);
            },
        };
        let signal = SyncSignal::from_repr_lenient(tag);
        assert(tag == bytes[0]);
        let payload = match reader.read_sized::<u8>() {
            Ok(p) => p,
            Err(e) => {
                return Err(e);
            },
        };
        Ok(SyncSignalPacket { signal, payload })
    }
}

/// Decoding the framing of a packet gives that packet back.
pub proof fn lemma_packet_round_trip(bytes: Seq<u8>, signal: SyncSignal, payload: Seq<u8>)
    requires
        frames_packet(bytes, signal, payload),
    ensures
        decode_outcome(bytes) == Ok::<(SyncSignal, Seq<u8>), Error>((signal, payload)),
        strict_decode_outcome(bytes) == Ok::<(SyncSignal, Seq<u8>), Error>((signal, payload)),
{
    lemma_sized_round_trip::<u8>(payload, bytes.skip(1), Seq::empty());
    assert(bytes.skip(1) + Seq::<u8>::empty() =~= bytes.skip(1));
}

/// Bytes too few to hold the tag and the length field fail to decode with an unexpected end.
pub proof fn lemma_truncated_fails(bytes: Seq<u8>)
    requires
        bytes.len() < 1 + usize::width(),
    ensures
        decode_outcome(bytes) == Err::<(SyncSignal, Seq<u8>), Error>(eof()),
{
}

/// A tag byte above 3 in front of a well-formed payload decodes, as `Sending`.
pub proof fn lemma_unknown_tag_reads_as_sending(bytes: Seq<u8>, payload: Seq<u8>)
    requires
        bytes.len() >= 1,
        bytes[0] > 3,
        holds_sized::<u8>(bytes.skip(1), payload),
    ensures
        decode_outcome(bytes) == Ok::<(SyncSignal, Seq<u8>), Error>((SyncSignal::Sending, payload)),
        strict_decode_outcome(bytes) == Err::<(SyncSignal, Seq<u8>), Error>(
            Error::UnknownPacketLayout(0),
        ),
{
    lemma_sized_round_trip::<u8>(payload, bytes.skip(1), Seq::empty());
    assert(bytes.skip(1) + Seq::<u8>::empty() =~= bytes.skip(1));
}

} // verus!
