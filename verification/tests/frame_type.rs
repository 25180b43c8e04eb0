use hp::flags::{BitFlags, DataFlags, HeadersFlags, SettingsFlags};
use hp::frame_type::{FrameType, RawFrameType, UnknownFrameType};

fn raw_types() -> Vec<RawFrameType> {
    vec![
        RawFrameType::Data,
        RawFrameType::Headers,
        RawFrameType::Priority,
        RawFrameType::RstStream,
        RawFrameType::Settings,
        RawFrameType::PushPromise,
        RawFrameType::Ping,
        RawFrameType::GoAway,
        RawFrameType::WindowUpdate,
        RawFrameType::Continuation,
    ]
}

#[test]
fn type_codes_run_from_zero_to_nine() {
    for (code, raw) in raw_types().into_iter().enumerate() {
        assert_eq!(raw.repr() as usize, code);
        assert_eq!(RawFrameType::from_repr(code as u8), Some(raw));
    }
}

#[test]
fn codes_from_ten_on_name_no_type() {
    for code in 10..=255u8 {
        assert_eq!(RawFrameType::from_repr(code), None);
    }
}

#[test]
fn settings_flags_are_truncated_to_ack() {
    let decoded = FrameType::decode(4, 0xFF).unwrap();
    assert_eq!(decoded, FrameType::Settings(BitFlags::from_flag(SettingsFlags::Ack)));
    match decoded {
        FrameType::Settings(flags) => {
            assert!(flags.contains(SettingsFlags::Ack));
            assert_eq!(flags.bits(), 0x01);
        }
        other => panic!("not a settings frame: {:?}", other),
    }
    assert_eq!(decoded.encode(), (4, 0x01));
}

#[test]
fn type_byte_ten_is_unknown() {
    assert_eq!(FrameType::decode(0x0A, 0), Err(UnknownFrameType(0x0A)));
    assert_eq!(FrameType::decode(0xFF, 0x01), Err(UnknownFrameType(0xFF)));
    for code in 10..=255u8 {
        assert_eq!(FrameType::decode(code, 0xFF), Err(UnknownFrameType(code)));
    }
}

#[test]
fn decode_keeps_the_known_flags_of_each_type() {
    assert_eq!(
        FrameType::decode(0, 0xFF),
        Ok(FrameType::Data(BitFlags::from_flag(DataFlags::Padded).with(DataFlags::EndStream)))
    );
    assert_eq!(FrameType::decode(0, 0xFF).unwrap().encode(), (0, 0x09));
    assert_eq!(FrameType::decode(1, 0xFF).unwrap().encode(), (1, 0x2D));
    assert_eq!(
        FrameType::decode(1, 0x05),
        Ok(FrameType::Headers(
            BitFlags::from_flag(HeadersFlags::EndHeaders).with(HeadersFlags::EndStream)
        ))
    );
}

#[test]
fn types_without_flags_drop_the_flags_byte() {
    assert_eq!(FrameType::decode(2, 0xFF), Ok(FrameType::Priority));
    assert_eq!(FrameType::decode(3, 0xFF), Ok(FrameType::RstStream));
    assert_eq!(FrameType::decode(5, 0xFF), Ok(FrameType::PushPromise));
    assert_eq!(FrameType::decode(6, 0xFF), Ok(FrameType::Ping));
    assert_eq!(FrameType::decode(7, 0xFF), Ok(FrameType::GoAway));
    assert_eq!(FrameType::decode(8, 0xFF), Ok(FrameType::WindowUpdate));
    assert_eq!(FrameType::decode(9, 0xFF), Ok(FrameType::Continuation));
    for code in [2u8, 3, 5, 6, 7, 8, 9] {
        assert_eq!(FrameType::decode(code, 0xFF).unwrap().encode(), (code, 0));
    }
}

#[test]
fn encoding_twice_gives_the_same_pair() {
    let flags = BitFlags::from_flag(HeadersFlags::EndHeaders).with(HeadersFlags::Padded);
    let first = FrameType::Headers(flags);
    let second = FrameType::Headers(flags);
    assert_eq!(first.encode(), (1, 0x0C));
    assert_eq!(first.encode(), first.encode());
    assert_eq!(first.encode(), second.encode());
    assert_eq!(FrameType::Ping.encode(), FrameType::Ping.encode());
}

#[test]
fn decoding_an_encoding_gives_the_frame_type_back() {
    for code in 0..10u8 {
        for flags in 0..=255u8 {
            let decoded = FrameType::decode(code, flags).unwrap();
            let (again_code, again_flags) = decoded.encode();
            assert_eq!(again_code, code);
            assert_eq!(FrameType::decode(again_code, again_flags), Ok(decoded));
        }
    }
}

#[test]
fn raw_type_and_from_raw_agree_with_decode() {
    for raw in raw_types() {
        let typed = FrameType::from_raw(raw, 0xFF);
        assert_eq!(typed.raw(), raw);
        assert_eq!(Ok(typed), FrameType::decode(raw.repr(), 0xFF));
    }
}
