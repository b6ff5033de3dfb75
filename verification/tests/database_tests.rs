use citrii::codec::{ByteStruct, ByteStructImpl};
use citrii::crc::crc16_ninty;
use citrii::database::{
    adjust_birthmonth, clamp_birthday, CFHEObject, Database, Profile, ProfileAlt, ProfileFull,
    ProfileHeader, ProfileId, ProfileIdLow,
};

#[test]
fn database_struct_size_test() {
    assert_eq!(Database::byte_len(), 0x4BD20);
}

#[test]
fn record_sizes() {
    assert_eq!(Profile::byte_len(), 0x48);
    assert_eq!(ProfileFull::byte_len(), 92);
    assert_eq!(ProfileAlt::byte_len(), 84);
    assert_eq!(ProfileId::byte_len(), 10);
    assert_eq!(CFHEObject::byte_len(), 14);
}

#[test]
fn crc16_empty_is_zero() {
    assert_eq!(crc16_ninty(&[]), 0x0000);
}

#[test]
fn crc16_vector() {
    // The classic check value of this CRC variant.
    let data = b"123456789";
    assert_eq!(crc16_ninty(&data[..]), 0x31C3);
    // Deterministic and reproducible.
    assert_eq!(crc16_ninty(&data[..]), crc16_ninty(&data[..]));
}

#[test]
fn profile_header_bitfield_round_trip() {
    let raw = 0xdeadbeefu32;
    let h = ProfileHeader::from_raw(raw);
    assert_eq!(h.to_raw(), raw);
    let low = ProfileIdLow::from_raw(0x12345678);
    assert_eq!(low.to_raw(), 0x12345678);
}

#[test]
fn profile_new_round_trip() {
    let p = Profile::new([1, 2, 3, 4, 5, 6], [7, 8, 9, 10, 11, 12, 13, 14], 0x0abcdef, 37);
    assert!(!p.is_null());
    assert_eq!(p.get_slot(), 37);
    assert_eq!(p.header.page, 3);
    assert_eq!(p.header.slot, 7);
    assert_eq!(p.name[0], b'?' as u16);
    assert_eq!(p.height, 64);
    assert_eq!(p.width, 64);
    assert_eq!(p.hair.style, 12);

    let mut buf = [0u8; 0x48];
    p.write_bytes(&mut buf[..], 0);
    let q = Profile::read_bytes(&buf[..], 0);
    assert_eq!(p, q);

    // The identity sub-record is stored big-endian: the 28-bit creation
    // date sits in the high bytes, flags in the low bits.
    let raw_id = p.id.low.to_raw();
    assert_eq!(buf[12], (raw_id >> 24) as u8);
    assert_eq!(buf[15], (raw_id & 0xff) as u8);
}

#[test]
fn profile_set_slot_moves_only_the_slot() {
    let mut p = Profile::new([0; 6], [0; 8], 1, 0);
    p.set_slot(99);
    assert_eq!(p.get_slot(), 99);
    assert_eq!(p.header.page, 9);
    assert_eq!(p.header.slot, 9);
    assert_eq!(p.header.three, 3);
}

#[test]
fn null_profile() {
    let zeros = [0u8; 0x48];
    let p = Profile::read_bytes(&zeros[..], 0);
    assert!(p.is_null());
}

#[test]
fn database_save_and_checksums() {
    let saved = {
        let blank = vec![0u8; 0x4BD20];
        let mut db = Database::read_bytes(&blank[..], 0);
        db.owned[3].main = Profile::new([1, 2, 3, 4, 5, 6], [1; 8], 42, 5);
        let mut saved = vec![0u8; 0x4BD20];
        db.write_saved(&mut saved[..]);
        saved
    };
    assert!(Database::verify_checksums(&saved[..]));

    // The checksums really sit big-endian at their fixed slots.
    let crc_a = crc16_ninty(&saved[0..0xC81E]);
    assert_eq!(saved[0xC81E], (crc_a >> 8) as u8);
    assert_eq!(saved[0xC81F], (crc_a & 0xff) as u8);
    let crc_b = crc16_ninty(&saved[0xC820..0xE4BE]);
    assert_eq!(saved[0xE4BE], (crc_b >> 8) as u8);
    assert_eq!(saved[0xE4BF], (crc_b & 0xff) as u8);

    // Corrupting a protected byte breaks validation.
    let mut bad = saved.clone();
    bad[100] ^= 1;
    assert!(!Database::verify_checksums(&bad[..]));
}

#[test]
fn database_reload_round_trip() {
    let saved = {
        let blank = vec![0u8; 0x4BD20];
        let mut db = Database::read_bytes(&blank[..], 0);
        db.owned[3].main = Profile::new([1, 2, 3, 4, 5, 6], [1; 8], 42, 5);
        let mut saved = vec![0u8; 0x4BD20];
        db.write_saved(&mut saved[..]);
        saved
    };
    // The database read back from its own save is the database itself.
    let db2 = Database::read_bytes(&saved[..], 0);
    assert_eq!(db2.owned[3].main.get_slot(), 5);
    assert_eq!(db2.owned[3].main, Profile::new([1, 2, 3, 4, 5, 6], [1; 8], 42, 5));
    assert!(db2.owned[2].main.is_null());
}

#[test]
fn owned_slot_lookup() {
    let blank = vec![0u8; 0x4BD20];
    let mut db = Database::read_bytes(&blank[..], 0);
    db.owned[7].main = Profile::new([1; 6], [1; 8], 9, 23);
    assert_eq!(db.owned_slot_to_index(23), Some(7));
    assert_eq!(db.owned_slot_to_index(24), None);
}

#[test]
fn birthday_rules() {
    let mut day = 31u16;
    clamp_birthday(2, &mut day);
    assert_eq!(day, 29);
    let mut day = 0u16;
    clamp_birthday(5, &mut day);
    assert_eq!(day, 1);
    let mut day = 17u16;
    clamp_birthday(0, &mut day);
    assert_eq!(day, 0);

    let mut month = 2u16;
    adjust_birthmonth(30, &mut month);
    assert_eq!(month, 1);
    let mut month = 9u16;
    adjust_birthmonth(31, &mut month);
    assert_eq!(month, 8);
    let mut month = 7u16;
    adjust_birthmonth(0, &mut month);
    assert_eq!(month, 0);
    let mut month = 0u16;
    adjust_birthmonth(12, &mut month);
    assert_eq!(month, 1);
}
