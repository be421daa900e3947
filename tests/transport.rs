use sensor_bridge::transport::{
    decode_transport_message, encode_transport_message, TransportMessage, TransportType,
};

#[test]
fn frame_matches_the_binary_codec() {
    let message = TransportMessage { transport_type: TransportType::PrepareStaticImage, data: vec![1, 2, 3] };
    let framed = encode_transport_message(&message);
    let expected = bincode::serialize(&(1u32, vec![1u8, 2, 3])).unwrap();
    assert_eq!(framed, expected);
    assert_eq!(framed.len(), 15);
}

#[test]
fn frame_round_trip() {
    for (t, n) in [
        (TransportType::PrepareText, 0usize),
        (TransportType::PrepareConditionalImage, 7),
        (TransportType::RenderImage, 300),
    ] {
        let data: Vec<u8> = (0..n).map(|i| (i % 251) as u8).collect();
        let m = TransportMessage { transport_type: t, data: data.clone() };
        let decoded = decode_transport_message(&encode_transport_message(&m)).ok().unwrap();
        assert_eq!(decoded.transport_type, t);
        assert_eq!(decoded.data, data);
    }
}

#[test]
fn malformed_frames_are_refused() {
    assert!(decode_transport_message(&vec![0, 0, 0]).is_err());
    let mut unknown = bincode::serialize(&(9u32, vec![1u8])).unwrap();
    assert!(decode_transport_message(&unknown).is_err());
    unknown[0] = 3;
    assert!(decode_transport_message(&unknown).is_ok());
    unknown.push(0);
    assert!(decode_transport_message(&unknown).is_err());
}
