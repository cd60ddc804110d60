//! The operations of the catalog: create, read, update, delete, approve and
//! revoke.
//!
//! Each operation takes the catalog it works on, and the ones that are reserved
//! to a song's owner take the caller's credential. What an operation does to
//! the catalog's value, and what it returns, is the function of the same name in
//! [`crate::model`].

use vstd::prelude::*;
use vstd::string::*;
use crate::integrity::{
    add_license_to_licensee, add_license_to_owner, add_song_to_owner, remove_license_from_licensee,
    remove_license_from_owner, remove_song_from_licensee, remove_song_from_owner,
};
use crate::model::{seen, told};
use crate::store::{listed, Catalog};
use crate::types::{
    id_message, no_licensee, not_found, Approvepayload, Error, ErrorKind, License, LicenseData,
    LicensePayload, Licensee, LicenseePayload, Owner, OwnerPayload, ProtectedPayload, ReturnOwner,
    Song, SongPayload, UpdateSongPayload,
};

verus! {

/// The authorization gate: `caller` must be the credential of the owner
/// `owner_id`.
pub fn check_if_caller_is_owner(catalog: &Catalog, owner_id: &u64, caller: &str) -> (r: Result<
    (),
    Error,
>)
    requires
        catalog.wf(),
    ensures
        told(r) == catalog@.require_owner(*owner_id, caller@),
{
    let owner = match catalog.owner(*owner_id) {
        Some(owner) => owner,
        None => {
            return Err(not_found("owner", *owner_id));
        },
    };
    if owner.owner_principal != String::from_str(caller) {
        Err(Error::Unauthorized { msg: String::from_str("Caller is not the song owner") })
    } else {
        Ok(())
    }
}

/// Approves a license at the payload's cost, for the owner of the license.
pub fn approve_license(catalog: &mut Catalog, payload: Approvepayload, caller: &str) -> (r: Result<
    License,
    Error,
>)
    requires
        old(catalog).wf(),
    ensures
        final(catalog).wf(),
        final(catalog)@ == old(catalog)@.approve_license(payload, caller@).state,
        seen(r) == old(catalog)@.approve_license(payload, caller@).outcome,
        r is Err && r.unwrap_err().kind() == ErrorKind::Unauthorized
            ==> *final(catalog) == *old(catalog),
{
    proof {
        catalog.lemma_valid();
    }
    let license = match catalog.license(payload.license_id) {
        Some(license) => license,
        None => {
            return Err(not_found("license", payload.license_id));
        },
    };
    check_if_caller_is_owner(catalog, &license.owner_id, caller)?;
    if catalog.licensee(license.licensee_id).is_none() {
        return Err(no_licensee(license.licensee_id));
    }
    if license.approved {
        return Err(
            Error::AlreadyApproved {
                msg: id_message("license id:", payload.license_id, " has already been approved"),
            },
        );
    }
    add_license_to_owner(catalog, license.owner_id, license.id)?;
    add_license_to_licensee(catalog, license.licensee_id, license.id)?;
    let mut new_license = license;
    new_license.approved = true;
    new_license.price = payload.cost;
    proof {
        catalog.lemma_valid();
    }
    catalog.put_license(&new_license);
    Ok(new_license)
}

/// Revokes a license, for the owner of the license.
pub fn revoke_license(catalog: &mut Catalog, payload: ProtectedPayload, caller: &str) -> (r: Result<
    License,
    Error,
>)
    requires
        old(catalog).wf(),
    ensures
        final(catalog).wf(),
        final(catalog)@ == old(catalog)@.revoke_license(payload, caller@).state,
        seen(r) == old(catalog)@.revoke_license(payload, caller@).outcome,
        r is Err && r.unwrap_err().kind() == ErrorKind::Unauthorized
            ==> *final(catalog) == *old(catalog),
{
    proof {
        catalog.lemma_valid();
    }
    let license = match catalog.license(payload.license_id) {
        Some(license) => license,
        None => {
            return Err(not_found("license", payload.license_id));
        },
    };
    check_if_caller_is_owner(catalog, &license.owner_id, caller)?;
    if catalog.licensee(license.licensee_id).is_none() {
        return Err(no_licensee(license.licensee_id));
    }
    remove_license_from_owner(catalog, license.owner_id, license.id)?;
    remove_license_from_licensee(catalog, license.licensee_id, license.id)?;
    let mut new_license = license;
    new_license.approved = false;
    proof {
        catalog.lemma_valid();
    }
    catalog.put_license(&new_license);
    Ok(new_license)
}

/// Registers a request of a licensee for a song. Any caller may ask.
pub fn create_license_request(catalog: &mut Catalog, payload: LicensePayload) -> (r: Result<
    License,
    Error,
>)
    requires
        old(catalog).wf(),
        old(catalog)@.next_id < u64::MAX,
        payload.within_bound(),
    ensures
        final(catalog).wf(),
        final(catalog)@ == old(catalog)@.create_license_request(payload).state,
        seen(r) == old(catalog)@.create_license_request(payload).outcome,
{
    let song = match catalog.song(payload.song_id) {
        Some(song) => song,
        None => {
            return Err(not_found("song", payload.song_id));
        },
    };
    if catalog.licensee(payload.licensee_id).is_none() {
        return Err(no_licensee(payload.licensee_id));
    }
    let id = catalog.next_id();
    let license = License {
        id,
        song_id: payload.song_id,
        owner_id: song.owner_id,
        licensee_id: payload.licensee_id,
        approved: false,
        price: 0,
        start_date: payload.start_date,
        end_date: payload.end_date,
    };
    catalog.put_license(&license);
    Ok(license)
}

/// Deletes a song, for the owner of the song.
pub fn delete_song(catalog: &mut Catalog, id: u64, caller: &str) -> (r: Result<Song, Error>)
    requires
        old(catalog).wf(),
    ensures
        final(catalog).wf(),
        final(catalog)@ == old(catalog)@.delete_song(id, caller@).state,
        seen(r) == old(catalog)@.delete_song(id, caller@).outcome,
        r is Err && r.unwrap_err().kind() == ErrorKind::Unauthorized
            ==> *final(catalog) == *old(catalog),
{
    let song = match catalog.song(id) {
        Some(song) => song,
        None => {
            return Err(not_found("song", id));
        },
    };
    check_if_caller_is_owner(catalog, &song.owner_id, caller)?;
    remove_song_from_licensee(catalog, id)?;
    remove_song_from_owner(catalog, id)?;
    // The song was found above, and no step since has taken it out.
    match catalog.take_song(id) {
        Some(song) => Ok(song),
        None => Err(
            Error::InvalidPayload { msg: id_message("song id:", id, " could not be deleted") },
        ),
    }
}

/// Registers a song for an owner.
pub fn create_song(catalog: &mut Catalog, payload: SongPayload) -> (r: Result<Song, Error>)
    requires
        old(catalog).wf(),
        old(catalog)@.next_id < u64::MAX,
        payload.within_bound(),
    ensures
        final(catalog).wf(),
        final(catalog)@ == old(catalog)@.create_song(payload).state,
        seen(r) == old(catalog)@.create_song(payload).outcome,
{
    let next = catalog.peek_id();
    add_song_to_owner(catalog, payload.owner_id, next)?;
    let id = catalog.next_id();
    let song = Song {
        id,
        title: payload.title,
        artist: payload.artist,
        owner_id: payload.owner_id,
        year: payload.year,
        genre: payload.genre,
        price: payload.price,
    };
    catalog.put_song(&song);
    Ok(song)
}

/// Replaces the title, artist, year, genre and price of a song, for the owner
/// of the song.
pub fn update_song(catalog: &mut Catalog, payload: UpdateSongPayload, caller: &str) -> (r: Result<
    Song,
    Error,
>)
    requires
        old(catalog).wf(),
        payload.within_bound(),
    ensures
        final(catalog).wf(),
        final(catalog)@ == old(catalog)@.update_song(payload, caller@).state,
        seen(r) == old(catalog)@.update_song(payload, caller@).outcome,
        r is Err && r.unwrap_err().kind() == ErrorKind::Unauthorized
            ==> *final(catalog) == *old(catalog),
{
    proof {
        catalog.lemma_valid();
    }
    let song = match catalog.song(payload.id) {
        Some(song) => song,
        None => {
            return Err(not_found("song", payload.id));
        },
    };
    check_if_caller_is_owner(catalog, &song.owner_id, caller)?;
    let new_song = Song {
        id: song.id,
        title: payload.title,
        artist: payload.artist,
        owner_id: song.owner_id,
        year: payload.year,
        genre: payload.genre,
        price: payload.price,
    };
    catalog.put_song(&new_song);
    Ok(new_song)
}

/// The owner of the song `id`, without its id lists.
pub fn get_song_owner(catalog: &Catalog, id: u64) -> (r: Result<ReturnOwner, Error>)
    requires
        catalog.wf(),
    ensures
        seen(r) == catalog@.get_song_owner(id),
{
    let song = match catalog.song(id) {
        Some(song) => song,
        None => {
            return Err(not_found("song", id));
        },
    };
    match catalog.owner(song.owner_id) {
        Some(owner) => Ok(
            ReturnOwner {
                id: owner.id,
                owner_principal: owner.owner_principal,
                name: owner.name,
                email: owner.email,
            },
        ),
        None => Err(not_found("owner", song.owner_id)),
    }
}

/// Registers a licensee.
pub fn create_licensee(catalog: &mut Catalog, payload: LicenseePayload) -> (r: Result<
    Licensee,
    Error,
>)
    requires
        old(catalog).wf(),
        old(catalog)@.next_id < u64::MAX,
        payload.within_bound(),
    ensures
        final(catalog).wf(),
        final(catalog)@ == old(catalog)@.create_licensee(payload).state,
        seen(r) == old(catalog)@.create_licensee(payload).outcome,
{
    let id = catalog.next_id();
    let licensee = Licensee { id, name: payload.name, email: payload.email, licenses: Vec::new() };
    catalog.put_licensee(&licensee);
    Ok(licensee)
}

/// Registers an owner whose credential is `caller`.
pub fn create_owner(catalog: &mut Catalog, payload: OwnerPayload, caller: &str) -> (r: Result<
    Owner,
    Error,
>)
    requires
        old(catalog).wf(),
        old(catalog)@.next_id < u64::MAX,
        payload.within_bound(caller@),
    ensures
        final(catalog).wf(),
        final(catalog)@ == old(catalog)@.create_owner(payload, caller@).state,
        seen(r) == old(catalog)@.create_owner(payload, caller@).outcome,
{
    let id = catalog.next_id();
    let owner = Owner {
        id,
        owner_principal: String::from_str(caller),
        name: payload.name,
        email: payload.email,
        song_ids: Vec::new(),
        license_ids: Vec::new(),
    };
    catalog.put_owner(&owner);
    Ok(owner)
}

/// The song `id`.
pub fn get_song(catalog: &Catalog, id: u64) -> (r: Result<Song, Error>)
    requires
        catalog.wf(),
    ensures
        seen(r) == catalog@.get_song(id),
{
    match catalog.song(id) {
        Some(song) => Ok(song),
        None => Err(not_found("song", id)),
    }
}

/// The license `id`.
pub fn get_license(catalog: &Catalog, id: u64) -> (r: Result<License, Error>)
    requires
        catalog.wf(),
    ensures
        seen(r) == catalog@.get_license(id),
{
    match catalog.license(id) {
        Some(license) => Ok(license),
        None => Err(not_found("license", id)),
    }
}

/// The licensee `id`.
pub fn get_licensee(catalog: &Catalog, id: u64) -> (r: Result<Licensee, Error>)
    requires
        catalog.wf(),
    ensures
        seen(r) == catalog@.get_licensee(id),
{
    match catalog.licensee(id) {
        Some(licensee) => Ok(licensee),
        None => Err(not_found("licensee", id)),
    }
}

/// Every song, by ascending id; `NotFound` if there is none.
pub fn get_all_songs(catalog: &Catalog) -> (r: Result<Vec<Song>, Error>)
    requires
        catalog.wf(),
    ensures
        match r {
            Ok(songs) => songs@.len() > 0 && listed(songs@, catalog@.songs),
            Err(e) => e.kind() == ErrorKind::NotFound && forall|k: u64|
                !catalog@.songs.contains_key(k),
        },
{
    let songs = catalog.all_songs();
    if songs.len() == 0 {
        Err(Error::NotFound { msg: String::from_str("no songs licensable could be found") })
    } else {
        Ok(songs)
    }
}

/// Whether the license names `id` as its owner, or as its licensee.
spec fn names(license: LicenseData, by_owner: bool, id: u64) -> bool {
    if by_owner {
        license.owner_id == id
    } else {
        license.licensee_id == id
    }
}

/// The licenses of the catalog that name `id` as their owner, or as their
/// licensee, by ascending id.
fn select_licenses(catalog: &Catalog, by_owner: bool, id: u64) -> (chosen: Vec<License>)
    requires
        catalog.wf(),
    ensures
        listed(
            chosen@,
            Map::new(
                |k: u64|
                    catalog@.licenses.contains_key(k) && names(
                        catalog@.licenses[k],
                        by_owner,
                        id,
                    ),
                |k: u64| catalog@.licenses[k],
            ),
        ),
{
    let all = catalog.all_licenses();
    let mut chosen: Vec<License> = Vec::new();
    let ghost mut from: Seq<int> = Seq::empty();
    let mut i: usize = 0;
    while i < all.len()
        invariant
            i <= all.len(),
            from.len() == chosen@.len(),
            forall|a: int|
                0 <= a < chosen@.len() ==> 0 <= #[trigger] from[a] < i
                    && chosen@[a] == all@[from[a]]
                    && names(chosen@[a]@, by_owner, id),
            forall|a: int, c: int|
                0 <= a < c < chosen@.len() ==> #[trigger] from[a] < #[trigger] from[c],
            forall|b: int|
                0 <= b < i && names((#[trigger] all@[b])@, by_owner, id) ==> exists|a: int|
                    0 <= a < chosen@.len() && #[trigger] from[a] == b,
        decreases all.len() - i,
    {
        let license = &all[i];
        let wanted = if by_owner {
            license.owner_id == id
        } else {
            license.licensee_id == id
        };
        if wanted {
            chosen.push(license.clone());
            proof {
                let ghost earlier = from;
                from = from.push(i as int);
                assert forall|b: int|
                    0 <= b < i + 1 && names((#[trigger] all@[b])@, by_owner, id) implies exists|
                    a: int,
                |
                    0 <= a < chosen@.len() && #[trigger] from[a] == b by {
                    if b < i {
                        let a = choose|a: int| 0 <= a < earlier.len() && #[trigger] earlier[a] == b;
                        assert(from[a] == b);
                    } else {
                        assert(from[chosen@.len() - 1] == b);
                    }
                }
            }
        }
        i += 1;
    }
    proof {
        let table = catalog@.licenses;
        let part = Map::new(
            |k: u64| table.contains_key(k) && names(table[k], by_owner, id),
            |k: u64| table[k],
        );
        assert forall|a: int| 0 <= a < chosen@.len() implies part.contains_key(
            (#[trigger] chosen@[a]).id,
        ) && part[chosen@[a].id] == chosen@[a]@ by {
            assert(table.contains_key(all@[from[a]].id));
        }
        assert forall|a: int, c: int| 0 <= a < c < chosen@.len() implies (
        #[trigger] chosen@[a]).id < (#[trigger] chosen@[c]).id by {
            assert(all@[from[a]].id < all@[from[c]].id);
        }
        assert forall|k: u64| #[trigger] part.contains_key(k) implies exists|a: int|
            0 <= a < chosen@.len() && (#[trigger] chosen@[a]).id == k by {
            let b = choose|b: int| 0 <= b < all@.len() && (#[trigger] all@[b]).id == k;
            assert(table[all@[b].id] == all@[b]@);
            let a = choose|a: int| 0 <= a < chosen@.len() && #[trigger] from[a] == b;
            assert(chosen@[a].id == k);
        }
    }
    chosen
}

/// The licenses that name the owner `id`, by ascending id; `NotFound` if there
/// is none.
pub fn get_owner_license_requests(catalog: &Catalog, id: u64) -> (r: Result<Vec<License>, Error>)
    requires
        catalog.wf(),
    ensures
        match r {
            Ok(licenses) => licenses@.len() > 0 && listed(
                licenses@,
                catalog@.licenses_of_owner(id),
            ),
            Err(e) => e.kind() == ErrorKind::NotFound && forall|k: u64|
                !catalog@.licenses_of_owner(id).contains_key(k),
        },
{
    let licenses = select_licenses(catalog, true, id);
    proof {
        assert(catalog@.licenses_of_owner(id) =~= Map::new(
            |k: u64| catalog@.licenses.contains_key(k) && names(catalog@.licenses[k], true, id),
            |k: u64| catalog@.licenses[k],
        ));
    }
    if licenses.len() == 0 {
        Err(
            Error::NotFound { msg: id_message("no licenses could be found for owner id:", id, "") },
        )
    } else {
        Ok(licenses)
    }
}

/// The licenses that name the licensee `id`, by ascending id; `NotFound` if
/// there is none.
pub fn get_licensee_licenses(catalog: &Catalog, id: u64) -> (r: Result<Vec<License>, Error>)
    requires
        catalog.wf(),
    ensures
        match r {
            Ok(licenses) => licenses@.len() > 0 && listed(
                licenses@,
                catalog@.licenses_of_licensee(id),
            ),
            Err(e) => e.kind() == ErrorKind::NotFound && forall|k: u64|
                !catalog@.licenses_of_licensee(id).contains_key(k),
        },
{
    let licenses = select_licenses(catalog, false, id);
    proof {
        assert(catalog@.licenses_of_licensee(id) =~= Map::new(
            |k: u64| catalog@.licenses.contains_key(k) && names(catalog@.licenses[k], false, id),
            |k: u64| catalog@.licenses[k],
        ));
    }
    if licenses.len() == 0 {
        Err(
            Error::NotFound {
                msg: id_message("no licenses could be found for licensee id:", id, ""),
            },
        )
    } else {
        Ok(licenses)
    }
}

} // verus!
