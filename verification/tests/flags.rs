use hp::flags::{BitFlags, DataFlags, Flag, HeadersFlags, SettingsFlags};

#[test]
fn flag_bits_are_those_of_the_wire() {
    assert_eq!(SettingsFlags::Ack.bit(), 0x01);
    assert_eq!(HeadersFlags::Priority.bit(), 0x20);
    assert_eq!(HeadersFlags::Padded.bit(), 0x08);
    assert_eq!(HeadersFlags::EndHeaders.bit(), 0x04);
    assert_eq!(HeadersFlags::EndStream.bit(), 0x01);
    assert_eq!(DataFlags::Padded.bit(), 0x08);
    assert_eq!(DataFlags::EndStream.bit(), 0x01);
}

#[test]
fn all_is_the_union_of_the_flags() {
    assert_eq!(SettingsFlags::all(), 0x01);
    assert_eq!(HeadersFlags::all(), 0x2D);
    assert_eq!(DataFlags::all(), 0x09);
}

#[test]
fn empty_set_has_no_bits_and_no_member() {
    let set: BitFlags<HeadersFlags> = BitFlags::empty();
    assert_eq!(set.bits(), 0);
    assert!(!set.contains(HeadersFlags::Priority));
    assert!(!set.contains(HeadersFlags::Padded));
    assert!(!set.contains(HeadersFlags::EndHeaders));
    assert!(!set.contains(HeadersFlags::EndStream));
    let by_default: BitFlags<HeadersFlags> = Default::default();
    assert_eq!(by_default, set);
}

#[test]
fn from_bits_truncate_drops_unknown_bits() {
    let data: BitFlags<DataFlags> = BitFlags::from_bits_truncate(0xFF);
    assert_eq!(data.bits(), 0x09);
    let headers: BitFlags<HeadersFlags> = BitFlags::from_bits_truncate(0xFF);
    assert_eq!(headers.bits(), 0x2D);
    let settings: BitFlags<SettingsFlags> = BitFlags::from_bits_truncate(0xFE);
    assert_eq!(settings.bits(), 0x00);
    let kept: BitFlags<HeadersFlags> = BitFlags::from_bits_truncate(0x24);
    assert_eq!(kept.bits(), 0x24);
    assert!(kept.contains(HeadersFlags::Priority));
    assert!(kept.contains(HeadersFlags::EndHeaders));
    assert!(!kept.contains(HeadersFlags::EndStream));
}

#[test]
fn with_and_union_add_flags() {
    let set = BitFlags::from_flag(HeadersFlags::EndHeaders).with(HeadersFlags::EndStream);
    assert_eq!(set.bits(), 0x05);
    assert!(set.contains(HeadersFlags::EndHeaders));
    assert!(set.contains(HeadersFlags::EndStream));
    assert!(!set.contains(HeadersFlags::Padded));
    let again = set.with(HeadersFlags::EndStream);
    assert_eq!(again, set);
    let both = BitFlags::from_flag(DataFlags::Padded).union(BitFlags::from_flag(DataFlags::EndStream));
    assert_eq!(both.bits(), 0x09);
    assert_eq!(both.union(BitFlags::empty()), both);
}

#[test]
fn a_copy_of_a_set_is_the_same_set() {
    let set = BitFlags::from_flag(DataFlags::EndStream);
    let copy = set.clone();
    assert_eq!(copy, set);
    assert_eq!(copy.bits(), 0x01);
}
