//! What holds of the catalog's operations, whatever the catalog and the
//! arguments.
//!
//! The laws speak of the functions of [`crate::model`], which the operations of
//! [`crate::handlers`] are proved to follow.

use vstd::prelude::*;
use crate::lists::{lemma_push_distinct, lemma_without_contains, lemma_without_distinct};
use crate::model::{sound, without, CatalogState};
use crate::types::{
    Approvepayload, ErrorKind, LicenseData, LicensePayload, Licensee, LicenseePayload, OwnerPayload,
    ProtectedPayload, SongData, SongPayload, UpdateSongPayload,
};

verus! {

/// `list` with `id` at its end, unless it holds `id` already.
pub open spec fn appended(list: Seq<u64>, id: u64) -> Seq<u64> {
    if list.contains(id) {
        list
    } else {
        list.push(id)
    }
}

/// A created owner is stored as it is returned, and both its lists are empty.
pub proof fn law_created_owner_lists_nothing(
    s: CatalogState,
    payload: OwnerPayload,
    caller: Seq<char>,
)
    ensures
        s.create_owner(payload, caller).outcome is Ok,
        ({
            let step = s.create_owner(payload, caller);
            let owner = step.outcome->Ok_0;
            &&& owner.id == s.next_id
            &&& owner.song_ids == Seq::<u64>::empty()
            &&& owner.license_ids == Seq::<u64>::empty()
            &&& step.state.owners.contains_key(owner.id)
            &&& step.state.owners[owner.id] == owner
        }),
{
}

/// A created song is appended to the songs of its owner, and to nothing else:
/// the owner's licenses and every other owner stay as they were. A song that
/// could not be created changes no list.
pub proof fn law_created_song_is_appended(s: CatalogState, payload: SongPayload)
    requires
        s.valid(),
    ensures
        ({
            let step = s.create_song(payload);
            let owner_id = payload.owner_id;
            if step.outcome is Ok {
                &&& s.owners.contains_key(owner_id)
                &&& step.state.owners.contains_key(owner_id)
                &&& step.state.owners[owner_id].song_ids == appended(
                    s.owners[owner_id].song_ids,
                    s.next_id,
                )
                &&& step.state.owners[owner_id].license_ids == s.owners[owner_id].license_ids
                &&& forall|other: u64|
                    other != owner_id ==> step.state.owners.contains_key(other)
                        == s.owners.contains_key(other) && step.state.owners[other]
                        == s.owners[other]
                &&& step.state.licensees == s.licensees
            } else {
                step.state == s
            }
        }),
{
}

/// An approved license is appended to the licenses of its owner and to those
/// of its licensee, and to nothing else; it is stored as approved at the
/// payload's cost.
pub proof fn law_approved_license_is_appended(
    s: CatalogState,
    payload: Approvepayload,
    caller: Seq<char>,
)
    requires
        s.valid(),
        s.approve_license(payload, caller).outcome is Ok,
    ensures
        ({
            let id = payload.license_id;
            let after = s.approve_license(payload, caller).state;
            let owner_id = s.licenses[id].owner_id;
            let licensee_id = s.licenses[id].licensee_id;
            &&& s.licenses.contains_key(id) && !s.licenses[id].approved
            &&& after.owners.contains_key(owner_id)
            &&& after.owners[owner_id].license_ids == appended(s.owners[owner_id].license_ids, id)
            &&& after.owners[owner_id].song_ids == s.owners[owner_id].song_ids
            &&& after.licensees.contains_key(licensee_id)
            &&& after.licensees[licensee_id].licenses == appended(
                s.licensees[licensee_id].licenses,
                id,
            )
            &&& forall|other: u64|
                other != owner_id ==> after.owners.contains_key(other)
                    == s.owners.contains_key(other) && after.owners[other] == s.owners[other]
            &&& forall|other: u64|
                other != licensee_id ==> after.licensees.contains_key(other)
                    == s.licensees.contains_key(other) && after.licensees[other]
                    == s.licensees[other]
            &&& after.licenses[id].approved && after.licenses[id].price == payload.cost
        }),
{
}

/// Whether every id list of `after` holds only ids that the same list held in
/// `before`, and `after` has no owner or licensee that `before` lacked.
pub open spec fn lists_gained_nothing(before: CatalogState, after: CatalogState) -> bool {
    &&& forall|k: u64| #[trigger]
        after.owners.contains_key(k) ==> before.owners.contains_key(k) && (forall|id: u64|
            after.owners[k].song_ids.contains(id) ==> before.owners[k].song_ids.contains(id))
            && (forall|id: u64|
            after.owners[k].license_ids.contains(id) ==> before.owners[k].license_ids.contains(id))
    &&& forall|k: u64| #[trigger]
        after.licensees.contains_key(k) ==> before.licensees.contains_key(k) && (forall|id: u64|
            after.licensees[k].licenses.contains(id) ==> before.licensees[k].licenses.contains(id))
}

/// Only the creation of a song and the approval of a license append to a
/// list. The other creations and the update of a song leave every stored owner
/// and licensee as it was; revocation and deletion, whether they succeed or
/// fail, leave no list with an id that it did not hold before.
pub proof fn law_nothing_else_appends(
    s: CatalogState,
    owner: OwnerPayload,
    licensee: LicenseePayload,
    update: UpdateSongPayload,
    request: LicensePayload,
    revocation: ProtectedPayload,
    id: u64,
    caller: Seq<char>,
)
    requires
        s.valid(),
    ensures
        forall|k: u64| #[trigger]
            s.owners.contains_key(k) ==> s.create_owner(owner, caller).state.owners[k]
                == s.owners[k],
        s.create_owner(owner, caller).state.licensees == s.licensees,
        forall|k: u64| #[trigger]
            s.licensees.contains_key(k) ==> s.create_licensee(licensee).state.licensees[k]
                == s.licensees[k],
        s.create_licensee(licensee).state.owners == s.owners,
        s.create_license_request(request).state.owners == s.owners,
        s.create_license_request(request).state.licensees == s.licensees,
        s.update_song(update, caller).state.owners == s.owners,
        s.update_song(update, caller).state.licensees == s.licensees,
        lists_gained_nothing(s, s.revoke_license(revocation, caller).state),
        lists_gained_nothing(s, s.delete_song(id, caller).state),
{
    let license_id = revocation.license_id;
    if s.licenses.contains_key(license_id) {
        let license = s.licenses[license_id];
        if s.owners.contains_key(license.owner_id) {
            let list = s.owners[license.owner_id].license_ids;
            assert forall|x: u64| without(list, set![license_id]).contains(x) implies list.contains(
                x,
            ) by {
                lemma_without_contains(list, set![license_id], x);
            }
        }
        if s.licensees.contains_key(license.licensee_id) {
            let list = s.licensees[license.licensee_id].licenses;
            assert forall|x: u64| without(list, set![license_id]).contains(x) implies list.contains(
                x,
            ) by {
                lemma_without_contains(list, set![license_id], x);
            }
        }
    }
    assert(lists_gained_nothing(s, s.revoke_license(revocation, caller).state));
    let cascaded = s.cascade_delete_song(id).state;
    let stripped = cascaded.licensees;
    assert forall|l: u64, x: u64|
        #[trigger] stripped.contains_key(l) && #[trigger] stripped[l].licenses.contains(x)
        implies s.licensees[l].licenses.contains(x) by {
        lemma_without_contains(s.licensees[l].licenses, s.song_licenses_of(id, l), x);
    }
    if s.songs.contains_key(id) && s.owners.contains_key(s.songs[id].owner_id) {
        let list = s.owners[s.songs[id].owner_id].song_ids;
        assert forall|x: u64| without(list, set![id]).contains(x) implies list.contains(x) by {
            lemma_without_contains(list, set![id], x);
        }
    }
    assert(lists_gained_nothing(s, s.delete_song(id, caller).state));
}

/// A license that is approved cannot be approved again: whoever asks and at
/// whatever cost, the request fails and changes nothing. The owner of the
/// license is told `AlreadyApproved`.
pub proof fn law_approved_license_rejects_approval(
    s: CatalogState,
    payload: Approvepayload,
    caller: Seq<char>,
)
    requires
        s.licenses.contains_key(payload.license_id),
        s.licenses[payload.license_id].approved,
    ensures
        s.approve_license(payload, caller).outcome is Err,
        s.approve_license(payload, caller).state == s,
        s.license_gate(payload.license_id, caller) is Ok ==> s.approve_license(
            payload,
            caller,
        ).outcome == Err::<LicenseData, ErrorKind>(ErrorKind::AlreadyApproved),
{
}

/// A second approval of a license by its owner is answered `AlreadyApproved`,
/// at whatever cost, and attaches nothing: the catalog stays as the first
/// approval left it.
pub proof fn law_second_approval_is_rejected(
    s: CatalogState,
    first: Approvepayload,
    second: Approvepayload,
    caller: Seq<char>,
)
    requires
        s.valid(),
        first.license_id == second.license_id,
        s.approve_license(first, caller).outcome is Ok,
    ensures
        ({
            let approved = s.approve_license(first, caller).state;
            let again = approved.approve_license(second, caller);
            &&& again.outcome == Err::<LicenseData, ErrorKind>(
                ErrorKind::AlreadyApproved,
            )
            &&& again.state == approved
        }),
{
}

/// A revocation that follows an approval succeeds for the same caller. It
/// takes the license out of the licenses of its owner and of its licensee, and
/// leaves it stored, not approved, at the approved cost: the license is still
/// among those that name its owner.
pub proof fn law_revocation_undoes_approval(
    s: CatalogState,
    payload: Approvepayload,
    caller: Seq<char>,
)
    requires
        s.valid(),
        s.approve_license(payload, caller).outcome is Ok,
    ensures
        ({
            let id = payload.license_id;
            let approved = s.approve_license(payload, caller).state;
            let revoked = approved.revoke_license(ProtectedPayload { license_id: id }, caller);
            let owner_id = s.licenses[id].owner_id;
            let licensee_id = s.licenses[id].licensee_id;
            &&& revoked.outcome is Ok
            &&& revoked.outcome->Ok_0 == revoked.state.licenses[id]
            &&& revoked.state.owners.contains_key(owner_id)
            &&& !revoked.state.owners[owner_id].license_ids.contains(id)
            &&& revoked.state.licensees.contains_key(licensee_id)
            &&& !revoked.state.licensees[licensee_id].licenses.contains(id)
            &&& revoked.state.licenses.contains_key(id)
            &&& !revoked.state.licenses[id].approved
            &&& revoked.state.licenses[id].price == payload.cost
            &&& revoked.state.licenses_of_owner(owner_id).contains_key(id)
            &&& revoked.state.licenses_of_owner(owner_id)[id] == revoked.state.licenses[id]
        }),
{
    let id = payload.license_id;
    let approved = s.approve_license(payload, caller).state;
    let owner_id = s.licenses[id].owner_id;
    let licensee_id = s.licenses[id].licensee_id;
    assert(approved.owners[owner_id].license_ids.contains(id)) by {
        let list = s.owners[owner_id].license_ids;
        if !list.contains(id) {
            assert(list.push(id)[list.len() as int] == id);
        }
    }
    assert(approved.licensees[licensee_id].licenses.contains(id)) by {
        let list = s.licensees[licensee_id].licenses;
        if !list.contains(id) {
            assert(list.push(id)[list.len() as int] == id);
        }
    }
    lemma_without_contains(approved.owners[owner_id].license_ids, set![id], id);
    lemma_without_contains(approved.licensees[licensee_id].licenses, set![id], id);
}

/// A caller other than the owner of a song cannot update it: the request is
/// answered `Unauthorized` and changes nothing.
pub proof fn law_update_needs_the_owner(
    s: CatalogState,
    payload: UpdateSongPayload,
    caller: Seq<char>,
)
    requires
        s.songs.contains_key(payload.id),
        s.owners.contains_key(s.songs[payload.id].owner_id),
        s.owners[s.songs[payload.id].owner_id].owner_principal != caller,
    ensures
        s.update_song(payload, caller).outcome == Err::<SongData, ErrorKind>(
            ErrorKind::Unauthorized,
        ),
        s.update_song(payload, caller).state == s,
{
}

/// A caller other than the owner of a song cannot delete it: the request is
/// answered `Unauthorized` and changes nothing.
pub proof fn law_delete_needs_the_owner(s: CatalogState, id: u64, caller: Seq<char>)
    requires
        s.songs.contains_key(id),
        s.owners.contains_key(s.songs[id].owner_id),
        s.owners[s.songs[id].owner_id].owner_principal != caller,
    ensures
        s.delete_song(id, caller).outcome == Err::<SongData, ErrorKind>(
            ErrorKind::Unauthorized,
        ),
        s.delete_song(id, caller).state == s,
{
}

/// A caller other than the owner of a license cannot approve it: the request
/// is answered `Unauthorized` and changes nothing.
pub proof fn law_approval_needs_the_owner(
    s: CatalogState,
    payload: Approvepayload,
    caller: Seq<char>,
)
    requires
        s.licenses.contains_key(payload.license_id),
        s.owners.contains_key(s.licenses[payload.license_id].owner_id),
        s.owners[s.licenses[payload.license_id].owner_id].owner_principal != caller,
    ensures
        s.approve_license(payload, caller).outcome == Err::<LicenseData, ErrorKind>(
            ErrorKind::Unauthorized,
        ),
        s.approve_license(payload, caller).state == s,
{
}

/// A caller other than the owner of a license cannot revoke it: the request
/// is answered `Unauthorized` and changes nothing.
pub proof fn law_revocation_needs_the_owner(
    s: CatalogState,
    payload: ProtectedPayload,
    caller: Seq<char>,
)
    requires
        s.licenses.contains_key(payload.license_id),
        s.owners.contains_key(s.licenses[payload.license_id].owner_id),
        s.owners[s.licenses[payload.license_id].owner_id].owner_principal != caller,
    ensures
        s.revoke_license(payload, caller).outcome == Err::<LicenseData, ErrorKind>(
            ErrorKind::Unauthorized,
        ),
        s.revoke_license(payload, caller).state == s,
{
}

/// A song is deleted exactly if it exists, the caller is its owner, each of
/// its licenses is listed by its licensee, and its owner lists the song.
/// A deleted song is returned as it was stored and is gone from the catalog;
/// its owner no longer lists it, and no licensee lists a license for it.
pub proof fn law_deleted_song_is_unlisted(s: CatalogState, id: u64, caller: Seq<char>)
    requires
        s.valid(),
    ensures
        s.delete_song(id, caller).outcome is Ok <==> {
            &&& s.songs.contains_key(id)
            &&& s.require_owner(s.songs[id].owner_id, caller) is Ok
            &&& !s.song_license_unlisted(id)
            &&& s.owners[s.songs[id].owner_id].song_ids.contains(id)
        },
        s.delete_song(id, caller).outcome is Ok ==> ({
            let after = s.delete_song(id, caller).state;
            let owner_id = s.songs[id].owner_id;
            &&& s.delete_song(id, caller).outcome == Ok::<SongData, ErrorKind>(
                s.songs[id],
            )
            &&& !after.songs.contains_key(id)
            &&& after.get_song(id) == Err::<SongData, ErrorKind>(ErrorKind::NotFound)
            &&& after.owners.contains_key(owner_id)
            &&& !after.owners[owner_id].song_ids.contains(id)
            &&& after.licenses == s.licenses
            &&& forall|k: u64|
                s.licenses.contains_key(k) && (#[trigger] s.licenses[k]).song_id == id ==> {
                    &&& after.licensees.contains_key(s.licenses[k].licensee_id)
                    &&& !after.licensees[s.licenses[k].licensee_id].licenses.contains(k)
                }
        }),
{
    if s.delete_song(id, caller).outcome is Ok {
        let owner_id = s.songs[id].owner_id;
        let cascaded = s.cascade_delete_song(id).state;
        lemma_without_contains(cascaded.owners[owner_id].song_ids, set![id], id);
        assert forall|k: u64|
            s.licenses.contains_key(k) && (#[trigger] s.licenses[k]).song_id == id implies {
            &&& cascaded.licensees.contains_key(s.licenses[k].licensee_id)
            &&& !cascaded.licensees[s.licenses[k].licensee_id].licenses.contains(k)
        } by {
            let l = s.licenses[k].licensee_id;
            assert(s.license_listed(k));
            lemma_without_contains(s.licensees[l].licenses, s.song_licenses_of(id, l), k);
        }
    }
}

/// The operations on id lists leave a valid catalog valid, whether they
/// succeed or fail.
pub proof fn law_lists_stay_valid(s: CatalogState, holder: u64, id: u64)
    requires
        s.valid(),
    ensures
        s.attach_song_to_owner(holder, id).state.valid(),
        s.attach_license_to_owner(holder, id).state.valid(),
        s.attach_license_to_licensee(holder, id).state.valid(),
        s.detach_license_from_owner(holder, id).state.valid(),
        s.detach_license_from_licensee(holder, id).state.valid(),
        s.detach_song_from_owner(id).state.valid(),
        s.cascade_delete_song(id).state.valid(),
{
    if s.owners.contains_key(holder) {
        let owner = s.owners[holder];
        if !owner.song_ids.contains(id) {
            lemma_push_distinct(owner.song_ids, id);
        }
        if !owner.license_ids.contains(id) {
            lemma_push_distinct(owner.license_ids, id);
        }
        lemma_without_distinct(owner.license_ids, set![id]);
    }
    if s.licensees.contains_key(holder) {
        let licensee = s.licensees[holder];
        if !licensee.licenses.contains(id) {
            lemma_push_distinct(licensee.licenses, id);
        }
        lemma_without_distinct(licensee.licenses, set![id]);
    }
    if s.songs.contains_key(id) && s.owners.contains_key(s.songs[id].owner_id) {
        lemma_without_distinct(s.owners[s.songs[id].owner_id].song_ids, set![id]);
    }
    let cascaded = s.cascade_delete_song(id).state;
    assert forall|l: u64| #[trigger] cascaded.licensees.contains_key(l) implies sound::<Licensee>(
        cascaded.licensees[l],
        l,
        cascaded.next_id,
    ) by {
        assert(s.licensees.contains_key(l));
        lemma_without_distinct(s.licensees[l].licenses, s.song_licenses_of(id, l));
    }
}

/// The operations on records leave a valid catalog valid, whether they
/// succeed or fail, as long as an identifier is left to hand out and the
/// payload describes a record within the bound.
pub proof fn law_records_stay_valid(
    s: CatalogState,
    owner: OwnerPayload,
    licensee: LicenseePayload,
    song: SongPayload,
    update: UpdateSongPayload,
    request: LicensePayload,
    approval: Approvepayload,
    revocation: ProtectedPayload,
    id: u64,
    caller: Seq<char>,
)
    requires
        s.valid(),
        s.next_id < u64::MAX,
        owner.within_bound(caller),
        licensee.within_bound(),
        song.within_bound(),
        update.within_bound(),
        request.within_bound(),
    ensures
        s.create_owner(owner, caller).state.valid(),
        s.create_licensee(licensee).state.valid(),
        s.create_song(song).state.valid(),
        s.update_song(update, caller).state.valid(),
        s.delete_song(id, caller).state.valid(),
        s.create_license_request(request).state.valid(),
        s.approve_license(approval, caller).state.valid(),
        s.revoke_license(revocation, caller).state.valid(),
{
    law_lists_stay_valid(s, song.owner_id, s.next_id);
    assert(s.create_song(song).state.valid());
    law_lists_stay_valid(s, 0, id);
    law_lists_stay_valid(s.cascade_delete_song(id).state, 0, id);
    assert(s.delete_song(id, caller).state.valid());
    let license_id = approval.license_id;
    if s.licenses.contains_key(license_id) {
        let license = s.licenses[license_id];
        law_lists_stay_valid(s, license.owner_id, license_id);
        law_lists_stay_valid(
            s.attach_license_to_owner(license.owner_id, license_id).state,
            license.licensee_id,
            license_id,
        );
    }
    assert(s.approve_license(approval, caller).state.valid());
    let license_id = revocation.license_id;
    if s.licenses.contains_key(license_id) {
        let license = s.licenses[license_id];
        law_lists_stay_valid(s, license.owner_id, license_id);
        law_lists_stay_valid(
            s.detach_license_from_owner(license.owner_id, license_id).state,
            license.licensee_id,
            license_id,
        );
    }
    assert(s.revoke_license(revocation, caller).state.valid());
}

} // verus!
