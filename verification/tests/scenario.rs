use music_licensing_backend::handlers::{
    approve_license, create_license_request, create_licensee, create_owner, create_song,
    delete_song, get_all_songs, get_license, get_licensee, get_licensee_licenses,
    get_owner_license_requests, get_song, get_song_owner, revoke_license, update_song,
};
use music_licensing_backend::integrity::{
    add_license_to_licensee, remove_license_from_licensee, remove_song_from_owner,
};
use music_licensing_backend::store::{Catalog, _get_license, _get_licensee, _get_owner, _get_song};
use music_licensing_backend::types::{
    Approvepayload, Error, ErrorKind, LicensePayload, LicenseePayload, OwnerPayload,
    ProtectedPayload, ReturnOwner, SongPayload, UpdateSongPayload,
};

fn owner_payload(name: &str) -> OwnerPayload {
    OwnerPayload { name: name.to_string(), email: format!("{}@example.org", name) }
}

fn licensee_payload(name: &str) -> LicenseePayload {
    LicenseePayload { name: name.to_string(), email: format!("{}@example.org", name) }
}

fn song_payload(title: &str, owner_id: u64) -> SongPayload {
    SongPayload {
        title: title.to_string(),
        artist: "The Band".to_string(),
        owner_id,
        year: 1999,
        genre: "rock".to_string(),
        price: 10,
    }
}

fn request(song_id: u64, licensee_id: u64) -> LicensePayload {
    LicensePayload {
        song_id,
        licensee_id,
        start_date: "2024-01-01".to_string(),
        end_date: "2024-12-31".to_string(),
    }
}

#[test]
fn license_goes_from_requested_to_approved_to_revoked() {
    let mut c = Catalog::new();
    let o1 = create_owner(&mut c, owner_payload("o1"), "k1").unwrap();
    assert!(o1.song_ids.is_empty());
    assert!(o1.license_ids.is_empty());
    assert_eq!(o1.owner_principal, "k1");
    let s1 = create_song(&mut c, song_payload("S1", o1.id)).unwrap();
    let l1 = create_licensee(&mut c, licensee_payload("l1")).unwrap();
    assert!(l1.licenses.is_empty());

    let license = create_license_request(&mut c, request(s1.id, l1.id)).unwrap();
    assert!(!license.approved);
    assert_eq!(license.price, 0);
    assert_eq!(license.song_id, s1.id);
    assert_eq!(license.owner_id, o1.id);
    assert_eq!(license.licensee_id, l1.id);
    assert_eq!(license.start_date, "2024-01-01");
    assert_eq!(license.end_date, "2024-12-31");

    let approval = Approvepayload { license_id: license.id, cost: 500 };
    let approved = approve_license(&mut c, approval, "k1").unwrap();
    assert!(approved.approved);
    assert_eq!(approved.price, 500);
    assert_eq!(_get_owner(&c, &o1.id).unwrap().license_ids, vec![license.id]);
    assert_eq!(_get_licensee(&c, &l1.id).unwrap().licenses, vec![license.id]);
    assert_eq!(get_license(&c, license.id).unwrap(), approved);

    let revocation = ProtectedPayload { license_id: license.id };
    let revoked = revoke_license(&mut c, revocation, "k1").unwrap();
    assert!(!revoked.approved);
    assert_eq!(revoked.price, 500);
    assert!(_get_owner(&c, &o1.id).unwrap().license_ids.is_empty());
    assert!(_get_licensee(&c, &l1.id).unwrap().licenses.is_empty());
    assert_eq!(_get_license(&c, &license.id).unwrap(), revoked);
    assert!(c.is_well_formed());
}

#[test]
fn identifiers_are_shared_and_ascend_from_zero() {
    let mut c = Catalog::new();
    assert_eq!(c.peek_id(), 0);
    let o = create_owner(&mut c, owner_payload("o"), "k").unwrap();
    let s = create_song(&mut c, song_payload("S", o.id)).unwrap();
    let l = create_licensee(&mut c, licensee_payload("l")).unwrap();
    let r = create_license_request(&mut c, request(s.id, l.id)).unwrap();
    assert_eq!((o.id, s.id, l.id, r.id), (0, 1, 2, 3));
    assert_eq!(c.peek_id(), 4);
}

#[test]
fn created_song_is_stored_and_listed_by_its_owner() {
    let mut c = Catalog::new();
    let o = create_owner(&mut c, owner_payload("o"), "k").unwrap();
    let a = create_song(&mut c, song_payload("A", o.id)).unwrap();
    let b = create_song(&mut c, song_payload("B", o.id)).unwrap();
    assert_eq!(a.title, "A");
    assert_eq!(a.artist, "The Band");
    assert_eq!(a.year, 1999);
    assert_eq!(a.genre, "rock");
    assert_eq!(a.price, 10);
    assert_eq!(a.owner_id, o.id);
    assert_eq!(get_song(&c, a.id).unwrap(), a);
    assert_eq!(_get_song(&c, &b.id).unwrap(), b);
    let stored = _get_owner(&c, &o.id).unwrap();
    assert_eq!(stored.song_ids, vec![a.id, b.id]);
    assert!(stored.license_ids.is_empty());
    assert_eq!(stored.name, "o");
    assert_eq!(stored.email, "o@example.org");
}

#[test]
fn song_for_a_missing_owner_is_not_created() {
    let mut c = Catalog::new();
    let e = create_song(&mut c, song_payload("A", 7)).unwrap_err();
    assert_eq!(e.kind(), ErrorKind::NotFound);
    assert_eq!(e, Error::NotFound { msg: "owner id:7 could not be found".to_string() });
    assert_eq!(c.peek_id(), 0);
    assert!(matches!(get_all_songs(&c), Err(Error::NotFound { .. })));
}

#[test]
fn all_songs_come_by_ascending_id() {
    let mut c = Catalog::new();
    let o = create_owner(&mut c, owner_payload("o"), "k").unwrap();
    let a = create_song(&mut c, song_payload("A", o.id)).unwrap();
    let p = create_owner(&mut c, owner_payload("p"), "q").unwrap();
    let b = create_song(&mut c, song_payload("B", p.id)).unwrap();
    let d = create_song(&mut c, song_payload("D", o.id)).unwrap();
    assert_eq!(get_all_songs(&c).unwrap(), vec![a, b, d]);
}

#[test]
fn no_songs_is_not_found() {
    let c = Catalog::new();
    let e = get_all_songs(&c).unwrap_err();
    assert_eq!(e, Error::NotFound { msg: "no songs licensable could be found".to_string() });
}

#[test]
fn song_owner_is_returned_without_lists() {
    let mut c = Catalog::new();
    let o = create_owner(&mut c, owner_payload("o"), "k").unwrap();
    let s = create_song(&mut c, song_payload("A", o.id)).unwrap();
    assert_eq!(
        get_song_owner(&c, s.id).unwrap(),
        ReturnOwner {
            id: o.id,
            owner_principal: "k".to_string(),
            name: "o".to_string(),
            email: "o@example.org".to_string(),
        }
    );
    assert_eq!(get_song_owner(&c, 99).unwrap_err().kind(), ErrorKind::NotFound);
}

#[test]
fn owner_updates_all_but_id_and_owner() {
    let mut c = Catalog::new();
    let o = create_owner(&mut c, owner_payload("o"), "k").unwrap();
    let s = create_song(&mut c, song_payload("A", o.id)).unwrap();
    let payload = UpdateSongPayload {
        id: s.id,
        title: "A2".to_string(),
        artist: "Another".to_string(),
        year: 2001,
        genre: "jazz".to_string(),
        price: 25,
    };
    let updated = update_song(&mut c, payload, "k").unwrap();
    assert_eq!(updated.id, s.id);
    assert_eq!(updated.owner_id, o.id);
    assert_eq!(updated.title, "A2");
    assert_eq!(updated.artist, "Another");
    assert_eq!(updated.year, 2001);
    assert_eq!(updated.genre, "jazz");
    assert_eq!(updated.price, 25);
    assert_eq!(get_song(&c, s.id).unwrap(), updated);
    assert_eq!(_get_owner(&c, &o.id).unwrap().song_ids, vec![s.id]);
}

#[test]
fn update_of_a_missing_song_is_not_found() {
    let mut c = Catalog::new();
    let payload = UpdateSongPayload {
        id: 3,
        title: "t".to_string(),
        artist: "a".to_string(),
        year: 1,
        genre: "g".to_string(),
        price: 1,
    };
    let e = update_song(&mut c, payload, "k").unwrap_err();
    assert_eq!(e, Error::NotFound { msg: "song id:3 could not be found".to_string() });
}

#[test]
fn stranger_changes_nothing() {
    let mut c = Catalog::new();
    let o = create_owner(&mut c, owner_payload("o"), "k1").unwrap();
    let s = create_song(&mut c, song_payload("A", o.id)).unwrap();
    let l = create_licensee(&mut c, licensee_payload("l")).unwrap();
    let pending = create_license_request(&mut c, request(s.id, l.id)).unwrap();
    let granted = create_license_request(&mut c, request(s.id, l.id)).unwrap();
    approve_license(&mut c, Approvepayload { license_id: granted.id, cost: 5 }, "k1").unwrap();
    let granted = _get_license(&c, &granted.id).unwrap();
    let owner_before = _get_owner(&c, &o.id).unwrap();
    let licensee_before = _get_licensee(&c, &l.id).unwrap();

    let payload = UpdateSongPayload {
        id: s.id,
        title: "X".to_string(),
        artist: "X".to_string(),
        year: 1,
        genre: "X".to_string(),
        price: 1,
    };
    let e = update_song(&mut c, payload, "k2").unwrap_err();
    assert_eq!(e, Error::Unauthorized { msg: "Caller is not the song owner".to_string() });
    assert_eq!(delete_song(&mut c, s.id, "k2").unwrap_err().kind(), ErrorKind::Unauthorized);
    let e = approve_license(&mut c, Approvepayload { license_id: pending.id, cost: 9 }, "k2");
    assert_eq!(e.unwrap_err().kind(), ErrorKind::Unauthorized);
    let e = revoke_license(&mut c, ProtectedPayload { license_id: granted.id }, "");
    assert_eq!(e.unwrap_err().kind(), ErrorKind::Unauthorized);

    assert_eq!(_get_song(&c, &s.id).unwrap(), s);
    assert_eq!(_get_owner(&c, &o.id).unwrap(), owner_before);
    assert_eq!(_get_licensee(&c, &l.id).unwrap(), licensee_before);
    assert_eq!(_get_license(&c, &pending.id).unwrap(), pending);
    assert_eq!(_get_license(&c, &granted.id).unwrap(), granted);
    assert_eq!(c.peek_id(), 5);
}

#[test]
fn second_approval_is_rejected_and_attaches_nothing() {
    let mut c = Catalog::new();
    let o = create_owner(&mut c, owner_payload("o"), "k1").unwrap();
    let s = create_song(&mut c, song_payload("A", o.id)).unwrap();
    let l = create_licensee(&mut c, licensee_payload("l")).unwrap();
    let r = create_license_request(&mut c, request(s.id, l.id)).unwrap();
    approve_license(&mut c, Approvepayload { license_id: r.id, cost: 500 }, "k1").unwrap();
    let second = Approvepayload { license_id: r.id, cost: 700 };
    let e = approve_license(&mut c, second, "k1").unwrap_err();
    assert_eq!(
        e,
        Error::AlreadyApproved { msg: format!("license id:{} has already been approved", r.id) }
    );
    assert_eq!(_get_owner(&c, &o.id).unwrap().license_ids, vec![r.id]);
    assert_eq!(_get_licensee(&c, &l.id).unwrap().licenses, vec![r.id]);
    assert_eq!(_get_license(&c, &r.id).unwrap().price, 500);
}

#[test]
fn approval_of_a_missing_license_is_not_found() {
    let mut c = Catalog::new();
    let e = approve_license(&mut c, Approvepayload { license_id: 4, cost: 1 }, "k").unwrap_err();
    assert_eq!(e, Error::NotFound { msg: "license id:4 could not be found".to_string() });
    let e = revoke_license(&mut c, ProtectedPayload { license_id: 4 }, "k").unwrap_err();
    assert_eq!(e, Error::NotFound { msg: "license id:4 could not be found".to_string() });
    assert_eq!(get_license(&c, 4).unwrap_err().kind(), ErrorKind::NotFound);
    assert_eq!(get_licensee(&c, 4).unwrap_err().kind(), ErrorKind::NotFound);
    assert_eq!(get_song(&c, 4).unwrap_err().kind(), ErrorKind::NotFound);
}

#[test]
fn revoked_license_is_still_among_the_owners_requests() {
    let mut c = Catalog::new();
    let o = create_owner(&mut c, owner_payload("o"), "k1").unwrap();
    let s = create_song(&mut c, song_payload("A", o.id)).unwrap();
    let l = create_licensee(&mut c, licensee_payload("l")).unwrap();
    let r = create_license_request(&mut c, request(s.id, l.id)).unwrap();
    approve_license(&mut c, Approvepayload { license_id: r.id, cost: 500 }, "k1").unwrap();
    revoke_license(&mut c, ProtectedPayload { license_id: r.id }, "k1").unwrap();
    let listed = get_owner_license_requests(&c, o.id).unwrap();
    assert_eq!(listed.len(), 1);
    assert_eq!(listed[0].id, r.id);
    assert!(!listed[0].approved);
    assert_eq!(listed[0].price, 500);
    let listed = get_licensee_licenses(&c, l.id).unwrap();
    assert_eq!(listed.len(), 1);
    assert_eq!(listed[0].id, r.id);
}

#[test]
fn revoked_license_can_be_approved_again() {
    let mut c = Catalog::new();
    let o = create_owner(&mut c, owner_payload("o"), "k1").unwrap();
    let s = create_song(&mut c, song_payload("A", o.id)).unwrap();
    let l = create_licensee(&mut c, licensee_payload("l")).unwrap();
    let r = create_license_request(&mut c, request(s.id, l.id)).unwrap();
    approve_license(&mut c, Approvepayload { license_id: r.id, cost: 500 }, "k1").unwrap();
    revoke_license(&mut c, ProtectedPayload { license_id: r.id }, "k1").unwrap();
    let second = Approvepayload { license_id: r.id, cost: 600 };
    let again = approve_license(&mut c, second, "k1").unwrap();
    assert!(again.approved);
    assert_eq!(again.price, 600);
    assert_eq!(_get_owner(&c, &o.id).unwrap().license_ids, vec![r.id]);
}

#[test]
fn revocation_of_a_request_that_was_never_approved_is_not_found() {
    let mut c = Catalog::new();
    let o = create_owner(&mut c, owner_payload("o"), "k1").unwrap();
    let s = create_song(&mut c, song_payload("A", o.id)).unwrap();
    let l = create_licensee(&mut c, licensee_payload("l")).unwrap();
    let r = create_license_request(&mut c, request(s.id, l.id)).unwrap();
    let e = revoke_license(&mut c, ProtectedPayload { license_id: r.id }, "k1").unwrap_err();
    assert_eq!(
        e,
        Error::NotFound {
            msg: format!("license id:{} could not be found in owner id:{}", r.id, o.id)
        }
    );
    assert_eq!(_get_license(&c, &r.id).unwrap(), r);
}

#[test]
fn requests_are_listed_by_owner_and_by_licensee() {
    let mut c = Catalog::new();
    let o = create_owner(&mut c, owner_payload("o"), "k1").unwrap();
    let p = create_owner(&mut c, owner_payload("p"), "k2").unwrap();
    let so = create_song(&mut c, song_payload("A", o.id)).unwrap();
    let sp = create_song(&mut c, song_payload("B", p.id)).unwrap();
    let l = create_licensee(&mut c, licensee_payload("l")).unwrap();
    let m = create_licensee(&mut c, licensee_payload("m")).unwrap();
    let r1 = create_license_request(&mut c, request(so.id, l.id)).unwrap();
    let r2 = create_license_request(&mut c, request(sp.id, l.id)).unwrap();
    let r3 = create_license_request(&mut c, request(so.id, m.id)).unwrap();
    assert_eq!(get_owner_license_requests(&c, o.id).unwrap(), vec![r1.clone(), r3.clone()]);
    assert_eq!(get_owner_license_requests(&c, p.id).unwrap(), vec![r2.clone()]);
    assert_eq!(get_licensee_licenses(&c, l.id).unwrap(), vec![r1, r2]);
    assert_eq!(get_licensee_licenses(&c, m.id).unwrap(), vec![r3]);
    let e = get_owner_license_requests(&c, l.id).unwrap_err();
    assert_eq!(
        e,
        Error::NotFound { msg: format!("no licenses could be found for owner id:{}", l.id) }
    );
    let e = get_licensee_licenses(&c, o.id).unwrap_err();
    assert_eq!(
        e,
        Error::NotFound { msg: format!("no licenses could be found for licensee id:{}", o.id) }
    );
}

#[test]
fn request_needs_song_and_licensee() {
    let mut c = Catalog::new();
    let o = create_owner(&mut c, owner_payload("o"), "k1").unwrap();
    let s = create_song(&mut c, song_payload("A", o.id)).unwrap();
    let e = create_license_request(&mut c, request(50, 51)).unwrap_err();
    assert_eq!(e, Error::NotFound { msg: "song id:50 could not be found".to_string() });
    let e = create_license_request(&mut c, request(s.id, 51)).unwrap_err();
    assert_eq!(e, Error::NotFound { msg: "Licensee with id=51 does not exist.".to_string() });
    assert_eq!(c.peek_id(), 2);
}

#[test]
fn deleted_song_leaves_owner_and_licensees() {
    let mut c = Catalog::new();
    let o = create_owner(&mut c, owner_payload("o"), "k1").unwrap();
    let s = create_song(&mut c, song_payload("A", o.id)).unwrap();
    let t = create_song(&mut c, song_payload("B", o.id)).unwrap();
    let l = create_licensee(&mut c, licensee_payload("l")).unwrap();
    let m = create_licensee(&mut c, licensee_payload("m")).unwrap();
    let r1 = create_license_request(&mut c, request(s.id, l.id)).unwrap();
    let r2 = create_license_request(&mut c, request(s.id, m.id)).unwrap();
    let r3 = create_license_request(&mut c, request(s.id, l.id)).unwrap();
    let keep = create_license_request(&mut c, request(t.id, l.id)).unwrap();
    for id in [r1.id, keep.id, r2.id, r3.id] {
        approve_license(&mut c, Approvepayload { license_id: id, cost: 3 }, "k1").unwrap();
    }
    assert_eq!(_get_licensee(&c, &l.id).unwrap().licenses, vec![r1.id, keep.id, r3.id]);

    let deleted = delete_song(&mut c, s.id, "k1").unwrap();
    assert_eq!(deleted, s);
    let e = get_song(&c, s.id).unwrap_err();
    assert_eq!(e, Error::NotFound { msg: format!("song id:{} could not be found", s.id) });
    assert_eq!(_get_owner(&c, &o.id).unwrap().song_ids, vec![t.id]);
    assert_eq!(_get_licensee(&c, &l.id).unwrap().licenses, vec![keep.id]);
    assert!(_get_licensee(&c, &m.id).unwrap().licenses.is_empty());
    assert_eq!(get_all_songs(&c).unwrap(), vec![t]);
    assert!(_get_license(&c, &r1.id).is_some());
    assert!(c.is_well_formed());
}

#[test]
fn song_without_licenses_is_deleted() {
    let mut c = Catalog::new();
    let o = create_owner(&mut c, owner_payload("o"), "k1").unwrap();
    let s = create_song(&mut c, song_payload("A", o.id)).unwrap();
    assert_eq!(delete_song(&mut c, s.id, "k1").unwrap(), s);
    assert!(_get_song(&c, &s.id).is_none());
    assert!(_get_owner(&c, &o.id).unwrap().song_ids.is_empty());
    assert_eq!(delete_song(&mut c, s.id, "k1").unwrap_err().kind(), ErrorKind::NotFound);
}

#[test]
fn song_with_an_unlisted_license_is_not_deleted() {
    let mut c = Catalog::new();
    let o = create_owner(&mut c, owner_payload("o"), "k1").unwrap();
    let s = create_song(&mut c, song_payload("A", o.id)).unwrap();
    let l = create_licensee(&mut c, licensee_payload("l")).unwrap();
    let granted = create_license_request(&mut c, request(s.id, l.id)).unwrap();
    let pending = create_license_request(&mut c, request(s.id, l.id)).unwrap();
    approve_license(&mut c, Approvepayload { license_id: granted.id, cost: 3 }, "k1").unwrap();
    let e = delete_song(&mut c, s.id, "k1").unwrap_err();
    assert_eq!(
        e,
        Error::NotFound {
            msg: format!("license id:{} could not be found in licensee id:{}", pending.id, l.id)
        }
    );
    assert_eq!(_get_song(&c, &s.id).unwrap(), s);
    assert_eq!(_get_owner(&c, &o.id).unwrap().song_ids, vec![s.id]);
    assert_eq!(_get_licensee(&c, &l.id).unwrap().licenses, vec![granted.id]);
}

#[test]
fn owner_with_a_full_list_takes_no_more_songs() {
    let mut c = Catalog::new();
    let o = create_owner(
        &mut c,
        OwnerPayload { name: "a".to_string(), email: "b".to_string() },
        "k1",
    )
    .unwrap();
    for _ in 0..124 {
        create_song(&mut c, song_payload("A", o.id)).unwrap();
    }
    assert_eq!(_get_owner(&c, &o.id).unwrap().song_ids.len(), 124);
    assert_eq!(c.peek_id(), 125);
    let e = create_song(&mut c, song_payload("A", o.id)).unwrap_err();
    assert_eq!(
        e,
        Error::InvalidPayload {
            msg: format!("song id:125 could not be added to owner id:{}", o.id)
        }
    );
    assert_eq!(c.peek_id(), 125);
    assert!(_get_song(&c, &125).is_none());
    assert_eq!(_get_owner(&c, &o.id).unwrap().song_ids.len(), 124);
}

#[test]
fn license_owner_stays_fixed() {
    let mut c = Catalog::new();
    let o = create_owner(&mut c, owner_payload("o"), "k1").unwrap();
    let s = create_song(&mut c, song_payload("A", o.id)).unwrap();
    let l = create_licensee(&mut c, licensee_payload("l")).unwrap();
    let r = create_license_request(&mut c, request(s.id, l.id)).unwrap();
    let a = approve_license(&mut c, Approvepayload { license_id: r.id, cost: 1 }, "k1").unwrap();
    let v = revoke_license(&mut c, ProtectedPayload { license_id: r.id }, "k1").unwrap();
    assert_eq!((a.owner_id, v.owner_id), (o.id, o.id));
    assert_eq!((a.song_id, v.licensee_id), (s.id, l.id));
}

#[test]
fn fresh_memory_opens_as_an_empty_catalog() {
    let c = Catalog::open().unwrap();
    assert_eq!(c.peek_id(), 0);
    assert!(c.is_well_formed());
    assert!(_get_owner(&c, &0).is_none());
}

#[test]
fn allocator_hands_out_each_identifier_once() {
    let mut c = Catalog::new();
    assert_eq!(c.next_id(), 0);
    assert_eq!(c.next_id(), 1);
    assert_eq!(c.peek_id(), 2);
    assert_eq!(c.peek_id(), 2);
    assert_eq!(c.next_id(), 2);
    let o = create_owner(&mut c, owner_payload("o"), "k").unwrap();
    assert_eq!(o.id, 3);
    assert!(c.is_well_formed());
}

#[test]
fn approval_that_ends_at_the_licensee_keeps_the_owners_entry() {
    let mut c = Catalog::new();
    let o = create_owner(&mut c, owner_payload("o"), "k1").unwrap();
    let s = create_song(&mut c, song_payload("A", o.id)).unwrap();
    let l = create_licensee(
        &mut c,
        LicenseePayload { name: "a".to_string(), email: "b".to_string() },
    )
    .unwrap();
    let r = create_license_request(&mut c, request(s.id, l.id)).unwrap();
    for id in 1000..1125 {
        add_license_to_licensee(&mut c, l.id, id).unwrap();
    }
    let approval = Approvepayload { license_id: r.id, cost: 9 };
    let e = approve_license(&mut c, approval, "k1").unwrap_err();
    assert_eq!(e.kind(), ErrorKind::InvalidPayload);
    assert_eq!(_get_owner(&c, &o.id).unwrap().license_ids, vec![r.id]);
    assert_eq!(_get_licensee(&c, &l.id).unwrap().licenses.len(), 125);
    assert!(!_get_license(&c, &r.id).unwrap().approved);

    remove_license_from_licensee(&mut c, l.id, 1000).unwrap();
    let a = approve_license(&mut c, Approvepayload { license_id: r.id, cost: 9 }, "k1").unwrap();
    assert!(a.approved);
    assert_eq!(_get_owner(&c, &o.id).unwrap().license_ids, vec![r.id]);
    assert_eq!(_get_licensee(&c, &l.id).unwrap().licenses.last(), Some(&r.id));
    assert!(c.is_well_formed());
}

#[test]
fn deletion_that_ends_at_the_owner_keeps_the_song() {
    let mut c = Catalog::new();
    let o = create_owner(&mut c, owner_payload("o"), "k1").unwrap();
    let s = create_song(&mut c, song_payload("A", o.id)).unwrap();
    let l = create_licensee(&mut c, licensee_payload("l")).unwrap();
    let r = create_license_request(&mut c, request(s.id, l.id)).unwrap();
    approve_license(&mut c, Approvepayload { license_id: r.id, cost: 9 }, "k1").unwrap();
    remove_song_from_owner(&mut c, s.id).unwrap();
    let e = delete_song(&mut c, s.id, "k1").unwrap_err();
    assert_eq!(
        e,
        Error::NotFound {
            msg: format!("song id:{} could not be found in owner id:{}", s.id, o.id)
        }
    );
    assert_eq!(_get_song(&c, &s.id).unwrap(), s);
    assert!(_get_licensee(&c, &l.id).unwrap().licenses.is_empty());
    assert!(c.is_well_formed());
}

#[test]
fn other_operations_leave_the_lists_alone() {
    let mut c = Catalog::new();
    let o = create_owner(&mut c, owner_payload("o"), "k1").unwrap();
    let s = create_song(&mut c, song_payload("A", o.id)).unwrap();
    let l = create_licensee(&mut c, licensee_payload("l")).unwrap();
    let r = create_license_request(&mut c, request(s.id, l.id)).unwrap();
    approve_license(&mut c, Approvepayload { license_id: r.id, cost: 9 }, "k1").unwrap();
    let owner = _get_owner(&c, &o.id).unwrap();
    let licensee = _get_licensee(&c, &l.id).unwrap();

    create_owner(&mut c, owner_payload("p"), "k2").unwrap();
    create_licensee(&mut c, licensee_payload("m")).unwrap();
    create_license_request(&mut c, request(s.id, l.id)).unwrap();
    let payload = UpdateSongPayload {
        id: s.id,
        title: "B".to_string(),
        artist: "b".to_string(),
        year: 2,
        genre: "g".to_string(),
        price: 2,
    };
    update_song(&mut c, payload, "k1").unwrap();
    assert_eq!(_get_owner(&c, &o.id).unwrap(), owner);
    assert_eq!(_get_licensee(&c, &l.id).unwrap(), licensee);
}

#[test]
fn closed_catalog_is_found_again_in_its_regions() {
    let mut c = Catalog::new();
    let o = create_owner(&mut c, owner_payload("o"), "k1").unwrap();
    let s = create_song(&mut c, song_payload("A", o.id)).unwrap();
    let l = create_licensee(&mut c, licensee_payload("l")).unwrap();
    let r = create_license_request(&mut c, request(s.id, l.id)).unwrap();
    let a = approve_license(&mut c, Approvepayload { license_id: r.id, cost: 500 }, "k1").unwrap();
    let owner = _get_owner(&c, &o.id).unwrap();
    let licensee = _get_licensee(&c, &l.id).unwrap();

    let mut c = Catalog::open_from(c.close()).unwrap();
    assert_eq!(c.peek_id(), 4);
    assert_eq!(_get_owner(&c, &o.id).unwrap(), owner);
    assert_eq!(_get_song(&c, &s.id).unwrap(), s);
    assert_eq!(_get_licensee(&c, &l.id).unwrap(), licensee);
    assert_eq!(_get_license(&c, &r.id).unwrap(), a);
    assert_eq!(get_all_songs(&c).unwrap(), vec![s]);
    let p = create_owner(&mut c, owner_payload("p"), "k2").unwrap();
    assert_eq!(p.id, 4);

    let c = Catalog::open_from(c.close()).unwrap();
    assert!(c.is_well_formed());
    assert_eq!(_get_owner(&c, &p.id).unwrap(), p);
}

#[test]
fn well_formed_catalog_passes_the_check() {
    let mut c = Catalog::new();
    let o = create_owner(&mut c, owner_payload("o"), "k1").unwrap();
    let mut c = c.checked().unwrap();
    assert_eq!(_get_owner(&c, &o.id).unwrap(), o);
    let e = get_song(&c, 18446744073709551615).unwrap_err();
    assert_eq!(
        e,
        Error::NotFound { msg: "song id:18446744073709551615 could not be found".to_string() }
    );
    let e = create_license_request(&mut c, request(1000, 0)).unwrap_err();
    assert_eq!(e, Error::NotFound { msg: "song id:1000 could not be found".to_string() });
}
