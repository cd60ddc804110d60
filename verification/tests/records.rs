use music_licensing_backend::records::{Record, MAX_ENTITY_SIZE};
use music_licensing_backend::text::decimal_text;
use music_licensing_backend::types::{
    License, LicensePayload, Licensee, LicenseePayload, Owner, OwnerPayload, Song, SongPayload,
    UpdateSongPayload,
};
use music_licensing_backend::wire::{
    put_flag, put_ids, put_text, put_u32, put_u64, read_flag, read_ids, read_text, read_u32,
    read_u64,
};

fn song() -> Song {
    Song {
        id: 0x0102030405060708,
        title: "né".to_string(),
        artist: "".to_string(),
        owner_id: 2,
        year: 1999,
        genre: "pop".to_string(),
        price: 7,
    }
}

#[test]
fn song_bytes_are_the_fields_in_order() {
    let bytes = song().to_bytes();
    let mut expected: Vec<u8> = vec![8, 7, 6, 5, 4, 3, 2, 1];
    expected.extend([3, 0, 0, 0, b'n', 0xc3, 0xa9]);
    expected.extend([0, 0, 0, 0]);
    expected.extend([2, 0, 0, 0, 0, 0, 0, 0]);
    expected.extend([0xcf, 0x07, 0, 0]);
    expected.extend([3, 0, 0, 0, b'p', b'o', b'p']);
    expected.extend([7, 0, 0, 0]);
    assert_eq!(bytes, expected);
    assert_eq!(Song::from_bytes(&bytes), Some(song()));
}

#[test]
fn owner_bytes_are_read_back() {
    let owner = Owner {
        id: 5,
        name: "Ann".to_string(),
        email: "ann@example.org".to_string(),
        owner_principal: "2vxsx-fae".to_string(),
        song_ids: vec![1, u64::MAX, 3],
        license_ids: vec![],
    };
    let bytes = owner.to_bytes();
    assert_eq!(bytes.len(), 8 + (4 + 3) + (4 + 15) + (4 + 9) + (4 + 24) + 4);
    assert_eq!(Owner::from_bytes(&bytes), Some(owner));
}

#[test]
fn license_bytes_are_read_back() {
    let license = License {
        id: 9,
        song_id: 1,
        owner_id: 0,
        licensee_id: 2,
        approved: true,
        price: 500,
        start_date: "2024-01-01".to_string(),
        end_date: "2024-12-31".to_string(),
    };
    let bytes = license.to_bytes();
    assert_eq!(bytes.len(), 37 + 14 + 14);
    assert_eq!(bytes[32], 1);
    assert_eq!(License::from_bytes(&bytes), Some(license.clone()));
    let mut other = bytes.clone();
    other[32] = 0;
    assert_eq!(License::from_bytes(&other), Some(License { approved: false, ..license }));
    other[32] = 2;
    assert_eq!(License::from_bytes(&other), None);
}

#[test]
fn licensee_bytes_are_read_back() {
    let licensee = Licensee {
        id: 3,
        name: "L".to_string(),
        email: "".to_string(),
        licenses: vec![7, 8],
    };
    let bytes = licensee.to_bytes();
    assert_eq!(Licensee::from_bytes(&bytes), Some(licensee));
}

#[test]
fn bytes_that_are_no_record_are_refused() {
    let bytes = song().to_bytes();
    assert_eq!(Song::from_bytes(&bytes[..bytes.len() - 1].to_vec()), None);
    let mut longer = bytes.clone();
    longer.push(0);
    assert_eq!(Song::from_bytes(&longer), None);
    assert_eq!(Song::from_bytes(&vec![]), None);
    let mut broken = bytes.clone();
    broken[13] = 0xff;
    assert_eq!(Song::from_bytes(&broken), None);
    let mut cut = bytes.clone();
    cut[8] = 200;
    assert_eq!(Song::from_bytes(&cut), None);
    assert_eq!(Owner::from_bytes(&bytes), None);
}

#[test]
fn bound_is_1024_bytes() {
    assert_eq!(MAX_ENTITY_SIZE, 1024);
    let mut s = song();
    s.title = "x".repeat(1024 - 36 - 3);
    s.artist = String::new();
    assert!(s.fits());
    assert_eq!(s.to_bytes().len(), 1024);
    s.artist = "y".to_string();
    assert!(!s.fits());
    s.artist = String::new();
    s.title = "é".repeat(492);
    assert!(s.fits());
    s.title.push('é');
    assert!(!s.fits());
}

#[test]
fn owner_has_room_for_as_many_ids_as_fit() {
    let mut owner = Owner {
        id: 0,
        name: "a".to_string(),
        email: "b".to_string(),
        owner_principal: "k1".to_string(),
        song_ids: (0..100).collect(),
        license_ids: (0..24).collect(),
    };
    assert!(owner.fits());
    assert_eq!(owner.to_bytes().len(), 1024);
    owner.license_ids.push(24);
    assert!(!owner.fits());
}

#[test]
fn payloads_fit_as_their_records_do() {
    let fits = SongPayload {
        title: "x".repeat(985),
        artist: String::new(),
        owner_id: 1,
        year: 1,
        genre: "pop".to_string(),
        price: 1,
    };
    assert!(fits.fits());
    assert!(!SongPayload { artist: "y".to_string(), ..fits.clone() }.fits());
    let update = UpdateSongPayload {
        id: 1,
        title: "x".repeat(985),
        artist: String::new(),
        year: 1,
        genre: "pop".to_string(),
        price: 1,
    };
    assert!(update.fits());
    assert!(!UpdateSongPayload { genre: "rock".to_string(), ..update.clone() }.fits());
    let owner = OwnerPayload { name: "n".repeat(500), email: "e".repeat(494) };
    assert!(owner.fits("k1"));
    assert!(!owner.fits("k12"));
    let licensee = LicenseePayload { name: "n".repeat(500), email: "e".repeat(504) };
    assert!(licensee.fits());
    assert!(!LicenseePayload { email: "e".repeat(505), ..licensee.clone() }.fits());
    let license = LicensePayload {
        song_id: 1,
        licensee_id: 2,
        start_date: "d".repeat(979),
        end_date: String::new(),
    };
    assert!(license.fits());
    assert!(!LicensePayload { end_date: "1".to_string(), ..license.clone() }.fits());
}

#[test]
fn fields_are_written_little_endian_and_read_from_a_position() {
    let mut out: Vec<u8> = vec![0xaa];
    put_u64(&mut out, 0x1122334455667788);
    put_u32(&mut out, 0x01020304);
    put_flag(&mut out, true);
    put_flag(&mut out, false);
    put_text(&mut out, &"hé".to_string());
    put_ids(&mut out, &vec![1, 258]);
    assert_eq!(
        out,
        vec![
            0xaa, 0x88, 0x77, 0x66, 0x55, 0x44, 0x33, 0x22, 0x11, 4, 3, 2, 1, 1, 0, 3, 0, 0, 0,
            b'h', 0xc3, 0xa9, 2, 0, 0, 0, 1, 0, 0, 0, 0, 0, 0, 0, 2, 1, 0, 0, 0, 0, 0, 0,
        ]
    );
    assert_eq!(read_u64(&out, 1), Some((0x1122334455667788, 9)));
    assert_eq!(read_u32(&out, 9), Some((0x01020304, 13)));
    assert_eq!(read_flag(&out, 13), Some((true, 14)));
    assert_eq!(read_flag(&out, 14), Some((false, 15)));
    assert_eq!(read_text(&out, 15), Some(("hé".to_string(), 22)));
    assert_eq!(read_ids(&out, 22), Some((vec![1, 258], 42)));
    assert_eq!(read_u64(&out, 35), None);
    assert_eq!(read_u32(&out, 39), None);
    assert_eq!(read_flag(&out, 42), None);
    assert_eq!(read_flag(&out, 0), None);
    assert_eq!(read_text(&out, 22), Some(("\u{1}\0".to_string(), 28)));
    assert_eq!(read_text(&out, 9), None);
    assert_eq!(read_text(&out, 40), None);
    assert_eq!(read_ids(&out, 15), None);
}

#[test]
fn text_that_is_not_utf8_is_refused() {
    let out: Vec<u8> = vec![2, 0, 0, 0, 0xc3, 0x28];
    assert_eq!(read_text(&out, 0), None);
    let out: Vec<u8> = vec![3, 0, 0, 0, 0xed, 0xa0, 0x80];
    assert_eq!(read_text(&out, 0), None);
    let out: Vec<u8> = vec![2, 0, 0, 0, 0xc0, 0x80];
    assert_eq!(read_text(&out, 0), None);
    let out: Vec<u8> = vec![2, 0, 0, 0, 0xc3, 0xa9];
    assert_eq!(read_text(&out, 0), Some(("é".to_string(), 6)));
}

#[test]
fn records_know_their_id_and_their_repetitions() {
    assert_eq!(song().id(), 0x0102030405060708);
    assert!(song().is_tidy());
    let mut owner = Owner {
        id: 4,
        name: String::new(),
        email: String::new(),
        owner_principal: String::new(),
        song_ids: vec![1, 2],
        license_ids: vec![2, 1],
    };
    assert_eq!(owner.id(), 4);
    assert!(owner.is_tidy());
    owner.license_ids.push(2);
    assert!(!owner.is_tidy());
    owner.license_ids.pop();
    owner.song_ids.push(1);
    assert!(!owner.is_tidy());
    let licensee =
        Licensee { id: 6, name: String::new(), email: String::new(), licenses: vec![3, 3] };
    assert_eq!(licensee.id(), 6);
    assert!(!licensee.is_tidy());
    let license = License { id: 8, ..License::default() };
    assert_eq!(license.id(), 8);
    assert!(license.is_tidy());
}

#[test]
fn identifiers_are_written_in_base_ten() {
    assert_eq!(decimal_text(0), "0");
    assert_eq!(decimal_text(7), "7");
    assert_eq!(decimal_text(10), "10");
    assert_eq!(decimal_text(109), "109");
    assert_eq!(decimal_text(1234567890), "1234567890");
    assert_eq!(decimal_text(u64::MAX), "18446744073709551615");
    for n in [1u64, 9, 11, 99, 100, 101, 999, 1000, 65535, 4294967296] {
        assert_eq!(decimal_text(n), format!("{}", n));
    }
}
