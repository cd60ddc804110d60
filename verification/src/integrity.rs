//! The referential integrity maintainer: the id lists of owners and licensees.
//!
//! Each operation reads one record, changes one of its id lists and stores the
//! record again. An operation that fails changes nothing.

use vstd::prelude::*;
use crate::lists::{
    lemma_push_distinct, lemma_remove_is_without, lemma_without_distinct, lemma_without_same,
    position,
};
use crate::model::{told, without};
use crate::records::Record;
use crate::store::{listed, Catalog};
use crate::types::{not_added, not_found, not_listed, Error, Licensee};

verus! {

/// Appends `license_id` to the licenses of the owner `owner_id`.
pub fn add_license_to_owner(catalog: &mut Catalog, owner_id: u64, license_id: u64) -> (r: Result<
    (),
    Error,
>)
    requires
        old(catalog).wf(),
    ensures
        final(catalog).wf(),
        final(catalog)@ == old(catalog)@.attach_license_to_owner(owner_id, license_id).state,
        told(r) == old(catalog)@.attach_license_to_owner(owner_id, license_id).outcome,
{
    proof {
        catalog.lemma_valid();
    }
    let mut owner = match catalog.owner(owner_id) {
        Some(owner) => owner,
        None => {
            return Err(not_found("owner", owner_id));
        },
    };
    if position(&owner.license_ids, license_id).is_some() {
        return Ok(());
    }
    owner.license_ids.push(license_id);
    if !owner.fits() {
        return Err(not_added("license", license_id, "owner", owner_id));
    }
    proof {
        lemma_push_distinct(old(catalog)@.owners[owner_id].license_ids, license_id);
    }
    catalog.put_owner(&owner);
    Ok(())
}

/// Appends `license_id` to the licenses of the licensee `licensee_id`.
pub fn add_license_to_licensee(catalog: &mut Catalog, licensee_id: u64, license_id: u64) -> (r:
    Result<(), Error>)
    requires
        old(catalog).wf(),
    ensures
        final(catalog).wf(),
        final(catalog)@ == old(catalog)@.attach_license_to_licensee(licensee_id, license_id).state,
        told(r) == old(catalog)@.attach_license_to_licensee(licensee_id, license_id).outcome,
{
    proof {
        catalog.lemma_valid();
    }
    let mut licensee = match catalog.licensee(licensee_id) {
        Some(licensee) => licensee,
        None => {
            return Err(not_found("licensee", licensee_id));
        },
    };
    if position(&licensee.licenses, license_id).is_some() {
        return Ok(());
    }
    licensee.licenses.push(license_id);
    if !licensee.fits() {
        return Err(not_added("license", license_id, "licensee", licensee_id));
    }
    proof {
        lemma_push_distinct(old(catalog)@.licensees[licensee_id].licenses, license_id);
    }
    catalog.put_licensee(&licensee);
    Ok(())
}

/// Appends `song_id` to the songs of the owner `owner_id`.
pub fn add_song_to_owner(catalog: &mut Catalog, owner_id: u64, song_id: u64) -> (r: Result<
    (),
    Error,
>)
    requires
        old(catalog).wf(),
    ensures
        final(catalog).wf(),
        final(catalog)@ == old(catalog)@.attach_song_to_owner(owner_id, song_id).state,
        told(r) == old(catalog)@.attach_song_to_owner(owner_id, song_id).outcome,
{
    proof {
        catalog.lemma_valid();
    }
    let mut owner = match catalog.owner(owner_id) {
        Some(owner) => owner,
        None => {
            return Err(not_found("owner", owner_id));
        },
    };
    if position(&owner.song_ids, song_id).is_some() {
        return Ok(());
    }
    owner.song_ids.push(song_id);
    if !owner.fits() {
        return Err(not_added("song", song_id, "owner", owner_id));
    }
    proof {
        lemma_push_distinct(old(catalog)@.owners[owner_id].song_ids, song_id);
    }
    catalog.put_owner(&owner);
    Ok(())
}

/// Takes `license_id` out of the licenses of the owner `owner_id`.
pub fn remove_license_from_owner(catalog: &mut Catalog, owner_id: u64, license_id: u64) -> (r:
    Result<(), Error>)
    requires
        old(catalog).wf(),
    ensures
        final(catalog).wf(),
        final(catalog)@ == old(catalog)@.detach_license_from_owner(owner_id, license_id).state,
        told(r) == old(catalog)@.detach_license_from_owner(owner_id, license_id).outcome,
{
    proof {
        catalog.lemma_valid();
    }
    let mut owner = match catalog.owner(owner_id) {
        Some(owner) => owner,
        None => {
            return Err(not_found("owner", owner_id));
        },
    };
    let index = match position(&owner.license_ids, license_id) {
        Some(index) => index,
        None => {
            return Err(not_listed("license", license_id, "owner", owner_id));
        },
    };
    proof {
        let list = owner.license_ids@;
        lemma_remove_is_without(list, index as int);
        lemma_without_distinct(list, set![license_id]);
    }
    owner.license_ids.remove(index);
    catalog.put_owner(&owner);
    Ok(())
}

/// Takes `license_id` out of the licenses of the licensee `licensee_id`.
pub fn remove_license_from_licensee(catalog: &mut Catalog, licensee_id: u64, license_id: u64) -> (r:
    Result<(), Error>)
    requires
        old(catalog).wf(),
    ensures
        final(catalog).wf(),
        final(catalog)@ == old(catalog)@.detach_license_from_licensee(
            licensee_id,
            license_id,
        ).state,
        told(r) == old(catalog)@.detach_license_from_licensee(licensee_id, license_id).outcome,
{
    proof {
        catalog.lemma_valid();
    }
    let mut licensee = match catalog.licensee(licensee_id) {
        Some(licensee) => licensee,
        None => {
            return Err(not_found("licensee", licensee_id));
        },
    };
    let index = match position(&licensee.licenses, license_id) {
        Some(index) => index,
        None => {
            return Err(not_listed("license", license_id, "licensee", licensee_id));
        },
    };
    proof {
        let list = licensee.licenses@;
        lemma_remove_is_without(list, index as int);
        lemma_without_distinct(list, set![license_id]);
    }
    licensee.licenses.remove(index);
    catalog.put_licensee(&licensee);
    Ok(())
}

/// Takes the song `id` out of the songs of its owner.
pub fn remove_song_from_owner(catalog: &mut Catalog, id: u64) -> (r: Result<(), Error>)
    requires
        old(catalog).wf(),
    ensures
        final(catalog).wf(),
        final(catalog)@ == old(catalog)@.detach_song_from_owner(id).state,
        told(r) == old(catalog)@.detach_song_from_owner(id).outcome,
{
    proof {
        catalog.lemma_valid();
    }
    let song = match catalog.song(id) {
        Some(song) => song,
        None => {
            return Err(not_found("song", id));
        },
    };
    let mut owner = match catalog.owner(song.owner_id) {
        Some(owner) => owner,
        None => {
            return Err(not_found("owner", song.owner_id));
        },
    };
    let index = match position(&owner.song_ids, id) {
        Some(index) => index,
        None => {
            return Err(not_listed("song", id, "owner", owner.id));
        },
    };
    proof {
        let list = owner.song_ids@;
        lemma_remove_is_without(list, index as int);
        lemma_without_distinct(list, set![id]);
    }
    owner.song_ids.remove(index);
    catalog.put_owner(&owner);
    Ok(())
}

/// The ids of `ids` that are no license for the song `song_id` naming the
/// licensee `licensee_id`.
fn strip_song_licenses(catalog: &Catalog, ids: &Vec<u64>, song_id: u64, licensee_id: u64) -> (kept:
    Vec<u64>)
    requires
        catalog.wf(),
    ensures
        kept@ == without(ids@, catalog@.song_licenses_of(song_id, licensee_id)),
{
    let ghost gone = catalog@.song_licenses_of(song_id, licensee_id);
    let mut kept: Vec<u64> = Vec::new();
    let mut i: usize = 0;
    proof {
        reveal(Seq::filter);
    }
    while i < ids.len()
        invariant
            catalog.wf(),
            i <= ids.len(),
            gone == catalog@.song_licenses_of(song_id, licensee_id),
            kept@ == without(ids@.take(i as int), gone),
        decreases ids.len() - i,
    {
        let leaves = match catalog.license(ids[i]) {
            Some(license) => license.song_id == song_id && license.licensee_id == licensee_id,
            None => false,
        };
        proof {
            reveal(Seq::filter);
            assert(ids@.take(i + 1).drop_last() =~= ids@.take(i as int));
            assert(leaves == gone.contains(ids@[i as int]));
        }
        if !leaves {
            kept.push(ids[i]);
        }
        i += 1;
    }
    proof {
        assert(ids@.take(i as int) =~= ids@);
    }
    kept
}

/// The first license for the song `song_id` that its licensee does not list,
/// if there is one: its id and the id of the licensee.
fn unlisted_license(catalog: &Catalog, song_id: u64) -> (found: Option<(u64, u64)>)
    requires
        catalog.wf(),
    ensures
        found is Some <==> catalog@.song_license_unlisted(song_id),
{
    proof {
        catalog.lemma_valid();
    }
    let licenses = catalog.all_licenses();
    let mut i: usize = 0;
    while i < licenses.len()
        invariant
            catalog.wf(),
            i <= licenses.len(),
            listed(licenses@, catalog@.licenses),
            forall|a: int|
                0 <= a < i && (#[trigger] licenses@[a]).song_id == song_id
                    ==> catalog@.license_listed(licenses@[a].id),
        decreases licenses.len() - i,
    {
        let license = &licenses[i];
        assert(catalog@.licenses[license.id] == license@);
        if license.song_id == song_id {
            let is_listed = match catalog.licensee(license.licensee_id) {
                Some(licensee) => position(&licensee.licenses, license.id).is_some(),
                None => false,
            };
            if !is_listed {
                return Some((license.id, license.licensee_id));
            }
        }
        i += 1;
    }
    proof {
        assert forall|k: u64|
            catalog@.licenses.contains_key(k) && (#[trigger] catalog@.licenses[k]).song_id
                == song_id implies catalog@.license_listed(k) by {
            let a = choose|a: int| 0 <= a < licenses@.len() && (#[trigger] licenses@[a]).id == k;
            assert(catalog@.licenses[licenses@[a].id] == licenses@[a]@);
        }
    }
    None
}

/// Stores every licensee without the licenses for the song `song_id`.
fn strip_licensees(catalog: &mut Catalog, song_id: u64)
    requires
        old(catalog).wf(),
    ensures
        final(catalog).wf(),
        final(catalog)@ == old(catalog)@.with_licensees(
            old(catalog)@.licensees_without_song(song_id),
        ),
{
    proof {
        catalog.lemma_valid();
    }
    let licensees = catalog.all_licensees();
    let ghost before = catalog@;
    let ghost after = before.licensees_without_song(song_id);
    let mut j: usize = 0;
    while j < licensees.len()
        invariant
            catalog.wf(),
            before.valid(),
            after == before.licensees_without_song(song_id),
            j <= licensees.len(),
            listed(licensees@, before.licensees),
            catalog@ == before.with_licensees(catalog@.licensees),
            forall|l: u64|
                catalog@.licensees.contains_key(l) <==> #[trigger] before.licensees.contains_key(l),
            forall|a: int|
                0 <= a < j ==> catalog@.licensees[(#[trigger] licensees@[a]).id]
                    == after[licensees@[a].id],
            forall|a: int|
                j <= a < licensees@.len() ==> catalog@.licensees[(#[trigger] licensees@[a]).id]
                    == before.licensees[licensees@[a].id],
        decreases licensees.len() - j,
    {
        let licensee = &licensees[j];
        let ghost gone = before.song_licenses_of(song_id, licensee.id);
        let kept = strip_song_licenses(catalog, &licensee.licenses, song_id, licensee.id);
        proof {
            assert(before.licensees[licensee.id] == licensee@);
            assert(catalog@.song_licenses_of(song_id, licensee.id) =~= gone);
            lemma_without_distinct(licensee.licenses@, gone);
            lemma_without_same(licensee.licenses@, gone);
        }
        if kept.len() != licensee.licenses.len() {
            let shrunk = Licensee {
                id: licensee.id,
                name: licensee.name.clone(),
                email: licensee.email.clone(),
                licenses: kept,
            };
            catalog.put_licensee(&shrunk);
            proof {
                assert(shrunk@ == after[licensee.id]);
                assert forall|a: int| 0 <= a < licensees@.len() && a != j implies (
                #[trigger] licensees@[a]).id != licensee.id by {
                    if a < j {
                        assert(licensees@[a].id < licensees@[j as int].id);
                    } else {
                        assert(licensees@[j as int].id < licensees@[a].id);
                    }
                }
            }
        } else {
            assert(licensee@ == after[licensee.id]);
        }
        j += 1;
    }
    proof {
        assert forall|l: u64| #[trigger]
            before.licensees.contains_key(l) implies catalog@.licensees[l] == after[l] by {
            let a = choose|a: int| 0 <= a < licensees@.len() && (#[trigger] licensees@[a]).id == l;
        }
        assert(catalog@.licensees =~= after);
    }
}

/// Takes every license for the song `id` out of the list of its licensee: all
/// of them, or none if one cannot be taken out.
pub fn remove_song_from_licensee(catalog: &mut Catalog, id: u64) -> (r: Result<(), Error>)
    requires
        old(catalog).wf(),
    ensures
        final(catalog).wf(),
        final(catalog)@ == old(catalog)@.cascade_delete_song(id).state,
        told(r) == old(catalog)@.cascade_delete_song(id).outcome,
{
    if catalog.song(id).is_none() {
        return Err(not_found("song", id));
    }
    if let Some((license_id, licensee_id)) = unlisted_license(catalog, id) {
        return Err(not_listed("license", license_id, "licensee", licensee_id));
    }
    strip_licensees(catalog, id);
    Ok(())
}

} // verus!
