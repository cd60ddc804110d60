use music_licensing_backend::handlers::{
    check_if_caller_is_owner, create_license_request, create_licensee, create_owner, create_song,
};
use music_licensing_backend::integrity::{
    add_license_to_licensee, add_license_to_owner, add_song_to_owner, remove_license_from_licensee,
    remove_license_from_owner, remove_song_from_licensee, remove_song_from_owner,
};
use music_licensing_backend::lists::{distinct, position};
use music_licensing_backend::store::{Catalog, _get_licensee, _get_owner};
use music_licensing_backend::types::{
    Error, ErrorKind, LicensePayload, LicenseePayload, OwnerPayload, SongPayload,
};

fn seeded() -> (Catalog, u64, u64, u64) {
    let mut c = Catalog::new();
    let o = create_owner(
        &mut c,
        OwnerPayload { name: "o".to_string(), email: "o@x".to_string() },
        "k1",
    )
    .unwrap();
    let s = create_song(
        &mut c,
        SongPayload {
            title: "t".to_string(),
            artist: "a".to_string(),
            owner_id: o.id,
            year: 2000,
            genre: "g".to_string(),
            price: 1,
        },
    )
    .unwrap();
    let l = create_licensee(
        &mut c,
        LicenseePayload { name: "l".to_string(), email: "l@x".to_string() },
    )
    .unwrap();
    (c, o.id, s.id, l.id)
}

fn ask(c: &mut Catalog, song_id: u64, licensee_id: u64) -> u64 {
    create_license_request(
        c,
        LicensePayload {
            song_id,
            licensee_id,
            start_date: "2024-01-01".to_string(),
            end_date: "2024-12-31".to_string(),
        },
    )
    .unwrap()
    .id
}

#[test]
fn attach_appends_in_order_and_once() {
    let (mut c, o, _, l) = seeded();
    add_license_to_owner(&mut c, o, 30).unwrap();
    add_license_to_owner(&mut c, o, 20).unwrap();
    add_license_to_owner(&mut c, o, 30).unwrap();
    assert_eq!(_get_owner(&c, &o).unwrap().license_ids, vec![30, 20]);
    add_license_to_licensee(&mut c, l, 30).unwrap();
    add_license_to_licensee(&mut c, l, 20).unwrap();
    add_license_to_licensee(&mut c, l, 20).unwrap();
    assert_eq!(_get_licensee(&c, &l).unwrap().licenses, vec![30, 20]);
    add_song_to_owner(&mut c, o, 9).unwrap();
    add_song_to_owner(&mut c, o, 9).unwrap();
    assert_eq!(_get_owner(&c, &o).unwrap().song_ids, vec![1, 9]);
    assert!(c.is_well_formed());
}

#[test]
fn attach_to_a_missing_record_is_not_found() {
    let (mut c, o, _, l) = seeded();
    let e = add_license_to_owner(&mut c, l, 5).unwrap_err();
    assert_eq!(e, Error::NotFound { msg: format!("owner id:{} could not be found", l) });
    let e = add_license_to_licensee(&mut c, o, 5).unwrap_err();
    assert_eq!(e, Error::NotFound { msg: format!("licensee id:{} could not be found", o) });
    let e = add_song_to_owner(&mut c, 77, 5).unwrap_err();
    assert_eq!(e.kind(), ErrorKind::NotFound);
}

#[test]
fn detach_takes_the_id_out_and_keeps_the_order() {
    let (mut c, o, _, l) = seeded();
    for id in [10, 11, 12] {
        add_license_to_owner(&mut c, o, id).unwrap();
        add_license_to_licensee(&mut c, l, id).unwrap();
    }
    remove_license_from_owner(&mut c, o, 11).unwrap();
    assert_eq!(_get_owner(&c, &o).unwrap().license_ids, vec![10, 12]);
    remove_license_from_licensee(&mut c, l, 10).unwrap();
    assert_eq!(_get_licensee(&c, &l).unwrap().licenses, vec![11, 12]);
    remove_license_from_licensee(&mut c, l, 12).unwrap();
    assert_eq!(_get_licensee(&c, &l).unwrap().licenses, vec![11]);
}

#[test]
fn detach_of_an_absent_id_is_not_found() {
    let (mut c, o, _, l) = seeded();
    let e = remove_license_from_owner(&mut c, o, 11).unwrap_err();
    assert_eq!(
        e,
        Error::NotFound { msg: format!("license id:11 could not be found in owner id:{}", o) }
    );
    let e = remove_license_from_licensee(&mut c, l, 11).unwrap_err();
    assert_eq!(
        e,
        Error::NotFound { msg: format!("license id:11 could not be found in licensee id:{}", l) }
    );
    assert_eq!(remove_license_from_owner(&mut c, 70, 11).unwrap_err().kind(), ErrorKind::NotFound);
    assert_eq!(
        remove_license_from_licensee(&mut c, 70, 11).unwrap_err().kind(),
        ErrorKind::NotFound
    );
}

#[test]
fn song_leaves_its_owner() {
    let (mut c, o, s, _) = seeded();
    remove_song_from_owner(&mut c, s).unwrap();
    assert!(_get_owner(&c, &o).unwrap().song_ids.is_empty());
    let e = remove_song_from_owner(&mut c, s).unwrap_err();
    assert_eq!(
        e,
        Error::NotFound { msg: format!("song id:{} could not be found in owner id:{}", s, o) }
    );
    let e = remove_song_from_owner(&mut c, 40).unwrap_err();
    assert_eq!(e, Error::NotFound { msg: "song id:40 could not be found".to_string() });
}

#[test]
fn cascade_strips_every_license_of_the_song_or_none() {
    let (mut c, _, s, l) = seeded();
    let r1 = ask(&mut c, s, l);
    let r2 = ask(&mut c, s, l);
    add_license_to_licensee(&mut c, l, r1).unwrap();
    add_license_to_licensee(&mut c, l, 900).unwrap();
    let e = remove_song_from_licensee(&mut c, s).unwrap_err();
    assert_eq!(e.kind(), ErrorKind::NotFound);
    assert_eq!(_get_licensee(&c, &l).unwrap().licenses, vec![r1, 900]);
    add_license_to_licensee(&mut c, l, r2).unwrap();
    remove_song_from_licensee(&mut c, s).unwrap();
    assert_eq!(_get_licensee(&c, &l).unwrap().licenses, vec![900]);
    assert_eq!(remove_song_from_licensee(&mut c, 41).unwrap_err().kind(), ErrorKind::NotFound);
}

#[test]
fn licensee_with_a_full_list_takes_no_more_licenses() {
    let mut c = Catalog::new();
    let l = create_licensee(
        &mut c,
        LicenseePayload { name: "a".to_string(), email: "b".to_string() },
    )
    .unwrap();
    for id in 0..125 {
        add_license_to_licensee(&mut c, l.id, id).unwrap();
    }
    let e = add_license_to_licensee(&mut c, l.id, 125).unwrap_err();
    assert_eq!(
        e,
        Error::InvalidPayload {
            msg: format!("license id:125 could not be added to licensee id:{}", l.id)
        }
    );
    assert_eq!(_get_licensee(&c, &l.id).unwrap().licenses.len(), 125);
    add_license_to_licensee(&mut c, l.id, 7).unwrap();
}

#[test]
fn gate_compares_the_credential_exactly() {
    let (c, o, _, l) = seeded();
    assert_eq!(check_if_caller_is_owner(&c, &o, "k1"), Ok(()));
    assert_eq!(check_if_caller_is_owner(&c, &o, "K1").unwrap_err().kind(), ErrorKind::Unauthorized);
    let e = check_if_caller_is_owner(&c, &o, "k1 ").unwrap_err();
    assert_eq!(e.kind(), ErrorKind::Unauthorized);
    assert_eq!(check_if_caller_is_owner(&c, &l, "k1").unwrap_err().kind(), ErrorKind::NotFound);
}

#[test]
fn position_is_the_first_occurrence() {
    assert_eq!(position(&vec![4, 5, 4], 4), Some(0));
    assert_eq!(position(&vec![4, 5, 4], 5), Some(1));
    assert_eq!(position(&vec![4, 5, 4], 6), None);
    assert_eq!(position(&vec![], 6), None);
}

#[test]
fn distinct_finds_a_repetition() {
    assert!(distinct(&vec![]));
    assert!(distinct(&vec![1, 2, 3]));
    assert!(!distinct(&vec![1, 2, 1]));
    assert!(!distinct(&vec![2, 2]));
}
