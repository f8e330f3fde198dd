use membus_sync::packet::{
    PacketBuf, PacketBufCodec, PacketBufReader, PacketBufWriter, SyncSignalPacket,
};
use membus_sync::plain::Plain;
use membus_sync::signal::SyncSignal;
use membus_sync::{Error, IoKind};

const WORD: usize = std::mem::size_of::<usize>();

fn framed(tag: u8, payload: &[u8]) -> Vec<u8> {
    let mut v = vec![tag];
    v.extend_from_slice(&payload.len().to_ne_bytes());
    v.extend_from_slice(payload);
    v
}

#[test]
fn test_packet_buf_writer_write() {
    let mut writer = PacketBufWriter::from(PacketBuf::new());

    let test_data: u32 = 12345;

    let bytes_written = writer.write(test_data).unwrap();
    let expected_size = std::mem::size_of::<u32>();
    assert_eq!(bytes_written, expected_size);

    let packet_buf = writer.into_inner();

    let expected_bytes = bytemuck::bytes_of(&test_data);
    assert_eq!(packet_buf.as_slice(), expected_bytes);
}

#[test]
fn test_codec() {
    let packet = SyncSignalPacket::default();

    let packet = packet.encode().expect("SyncSignalPacket::encode");

    SyncSignalPacket::decode(packet).expect("SyncSignalPacket::decode");
}

#[test]
fn round_trip_every_signal_and_length() {
    for signal in SyncSignal::all() {
        for len in [0usize, 1, 16, 4096] {
            let payload: Vec<u8> = (0..len).map(|i| (i * 7 % 251) as u8).collect();
            let packet = SyncSignalPacket { signal, payload: payload.clone() };
            let buf = packet.encode().unwrap();
            assert_eq!(buf.len(), 1 + WORD + len);
            let back = SyncSignalPacket::decode(buf).unwrap();
            assert_eq!(back.signal, signal);
            assert_eq!(back.payload, payload);
        }
    }
}

#[test]
fn truncated_buffers_fail_with_io() {
    let full = framed(1, &[]);
    for cut in 0..full.len() {
        let buf = PacketBuf::from_vec(full[..cut].to_vec());
        let err = SyncSignalPacket::decode(buf).unwrap_err();
        assert_eq!(err, Error::IO(IoKind::UnexpectedEof));
    }
    let short_payload = framed(2, &[9, 9, 9]);
    let buf = PacketBuf::from_vec(short_payload[..short_payload.len() - 1].to_vec());
    assert_eq!(
        SyncSignalPacket::decode(buf).unwrap_err(),
        Error::IO(IoKind::UnexpectedEof)
    );
}

#[test]
fn unknown_tag_decodes_as_sending() {
    let buf = PacketBuf::from_vec(framed(255, &[4, 5]));
    let packet = SyncSignalPacket::decode(buf).unwrap();
    assert_eq!(packet.signal, SyncSignal::Sending);
    assert_eq!(packet.payload, vec![4, 5]);
}

#[test]
fn strict_decoding_refuses_unknown_tag() {
    let buf = PacketBuf::from_vec(framed(255, &[4, 5]));
    assert_eq!(
        SyncSignalPacket::decode_strict(buf).unwrap_err(),
        Error::UnknownPacketLayout(0)
    );
    let buf = PacketBuf::from_vec(framed(3, &[4, 5]));
    let packet = SyncSignalPacket::decode_strict(buf).unwrap();
    assert_eq!(packet.signal, SyncSignal::Pulled);
    assert_eq!(packet.payload, vec![4, 5]);
}

#[test]
fn write_slice_then_read_sized() {
    for items in [vec![], vec![7u32], vec![1u32, 2, 3, 0xdead_beef]] {
        let mut writer = PacketBufWriter::from(PacketBuf::new());
        let n = writer.write_slice(&items).unwrap();
        assert_eq!(n, WORD + 4 * items.len());
        let mut reader = PacketBufReader::from(writer.into_inner());
        let back: Vec<u32> = reader.read_sized().unwrap();
        assert_eq!(back, items);
        assert_eq!(reader.remaining(), 0);
    }
}

#[test]
fn read_sized_with_too_few_values_consumes_nothing() {
    let mut bytes = 5usize.to_ne_bytes().to_vec();
    bytes.extend_from_slice(&[1, 2, 3]);
    let mut reader = PacketBufReader::from(PacketBuf::from_vec(bytes));
    let err = reader.read_sized::<u8>().unwrap_err();
    assert_eq!(err, Error::IO(IoKind::UnexpectedEof));
    assert_eq!(reader.remaining(), WORD + 3);
}

#[test]
fn read_past_end_fails_with_io() {
    let mut reader = PacketBufReader::from(PacketBuf::from_vec(vec![1, 2, 3]));
    assert_eq!(
        reader.read::<u32>().unwrap_err(),
        Error::IO(IoKind::UnexpectedEof)
    );
    assert_eq!(reader.remaining(), 3);
    assert_eq!(reader.read::<u8>().unwrap(), 1);
    assert_eq!(reader.remaining(), 2);
}

#[test]
fn cast_with_wrong_length_fails() {
    assert_eq!(u32::cast(&[1, 2, 3]), Err(Error::CastFailed));
    assert_eq!(u32::cast(&[1, 2, 3, 4, 5]), Err(Error::CastFailed));
    assert_eq!(usize::cast(&[0u8; 3]), Err(Error::CastFailed));
    assert_eq!(u8::cast(&[]), Err(Error::CastFailed));
    assert_eq!(u32::cast(&7u32.to_ne_bytes()), Ok(7));
    assert_eq!(usize::cast(&4096usize.to_ne_bytes()), Ok(4096));
    assert_eq!(u8::cast(&[200]), Ok(200));
}

#[test]
fn to_bytes_gives_memory_layout() {
    assert_eq!(0x0102_0304u32.to_bytes(), 0x0102_0304u32.to_ne_bytes().to_vec());
    assert_eq!(300usize.to_bytes(), 300usize.to_ne_bytes().to_vec());
    assert_eq!(9u8.to_bytes(), vec![9]);
    assert_eq!(<usize as Plain>::size(), WORD);
}

#[test]
fn encoding_twice_is_identical() {
    let packet = SyncSignalPacket { signal: SyncSignal::Pulling, payload: vec![8, 6, 7] };
    let a = packet.clone().encode().unwrap();
    let b = packet.encode().unwrap();
    assert_eq!(a.as_slice(), b.as_slice());
}

#[test]
fn completed_example_layout() {
    let packet = SyncSignalPacket { signal: SyncSignal::Completed, payload: vec![1, 2, 3] };
    let buf = packet.encode().unwrap();
    let mut expected = vec![0x01];
    expected.extend_from_slice(&3usize.to_ne_bytes());
    expected.extend_from_slice(&[0x01, 0x02, 0x03]);
    assert_eq!(buf.as_slice(), &expected[..]);
    let back = SyncSignalPacket::decode(buf).unwrap();
    assert_eq!(back.signal, SyncSignal::Completed);
    assert_eq!(back.payload, vec![1, 2, 3]);
}

#[test]
fn empty_payload_round_trips() {
    let buf = SyncSignalPacket::new(SyncSignal::Pulled).encode().unwrap();
    assert_eq!(buf.len(), 1 + WORD);
    let back = SyncSignalPacket::decode(buf).unwrap();
    assert_eq!(back.signal, SyncSignal::Pulled);
    assert!(back.payload.is_empty());
}

#[test]
fn signal_representations() {
    assert_eq!(
        SyncSignal::all(),
        vec![SyncSignal::Sending, SyncSignal::Completed, SyncSignal::Pulling, SyncSignal::Pulled]
    );
    for (i, s) in SyncSignal::all().into_iter().enumerate() {
        assert_eq!(s.repr() as usize, i);
        assert_eq!(SyncSignal::from_repr(i as u8), Some(s));
    }
    assert_eq!(SyncSignal::from_repr(4), None);
    assert_eq!(SyncSignal::from_repr_lenient(200), SyncSignal::Sending);
    assert_eq!(SyncSignal::default(), SyncSignal::Sending);
    assert!(SyncSignal::Sending < SyncSignal::Completed);
    assert!(SyncSignal::Pulling < SyncSignal::Pulled);
}

#[test]
fn raw_bytes_and_slices() {
    let mut writer = PacketBufWriter::new(PacketBuf::with_capacity(16));
    assert_eq!(writer.write_raw(&[1, 2, 3, 4, 5]), 5);
    assert!(writer.flush().is_ok());
    let buf = writer.try_into_inner().unwrap();
    assert_eq!(buf.as_slice(), &[1, 2, 3, 4, 5]);
    let mut reader = PacketBufReader::new(buf);
    assert_eq!(reader.read_raw(2), vec![1, 2]);
    let mut two = [0u8; 2];
    assert_eq!(reader.read_slice(&mut two), Ok(2));
    assert_eq!(two, [3, 4]);
    let mut more = [0u8; 2];
    assert_eq!(reader.read_slice(&mut more), Err(Error::IO(IoKind::UnexpectedEof)));
    assert_eq!(more, [0, 0]);
    assert_eq!(reader.read_raw(10), vec![5]);
    assert!(reader.read_raw(1).is_empty());
}

#[test]
fn buffer_filled_in_place() {
    let mut buf = PacketBuf::from_vec(vec![0; 3]);
    buf.as_mut_slice().copy_from_slice(&[7, 8, 9]);
    buf.extend_from_slice(&[10]);
    assert_eq!(buf.len(), 4);
    assert!(!buf.is_empty());
    assert!(PacketBuf::new().is_empty());
    assert_eq!(buf.into_vec(), vec![7, 8, 9, 10]);
}
