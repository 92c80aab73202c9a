use chiptrack::step::InstrumentStep;

#[test]
fn postcard_serialize() {
    let i = InstrumentStep {
        note: 36,
        release: true,
        param0: None,
        param1: Some(8),
    };

    let ser = i.encode();
    // The same bytes as postcard gives for the fields that the compact form writes.
    assert_eq!(ser, postcard::to_allocvec(&(0x80u8 | 36, 0b10u8, 8i8)).unwrap());
    let (r, len) = InstrumentStep::decode(&ser).unwrap();
    assert!(r == i);
    assert_eq!(len, ser.len());
}
