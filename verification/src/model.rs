//! The catalog as a mathematical value, and what each operation does to it.

use vstd::prelude::*;
use crate::records::{licensee_fits, owner_fits, Record};
use crate::types::{
    Approvepayload, Error, ErrorKind, License, LicenseData, LicensePayload, Licensee, LicenseeData,
    LicenseePayload, Owner, OwnerData, OwnerPayload, ProtectedPayload, ReturnOwnerData, Song,
    SongData, SongPayload, UpdateSongPayload,
};

verus! {

/// What holds of a record stored under `k` when `next_id` is the next
/// identifier: it carries `k` as its id, `k` was handed out before, its byte
/// form is within the bound, and none of its id lists holds an id twice.
pub open spec fn sound<T: Record>(value: T::V, k: u64, next_id: u64) -> bool {
    k < next_id && T::id_of(value) == k && T::bounded(value) && T::tidy(value)
}

/// The four tables and the next identifier to hand out.
pub struct CatalogState {
    pub next_id: u64,
    pub songs: Map<u64, SongData>,
    pub owners: Map<u64, OwnerData>,
    pub licenses: Map<u64, LicenseData>,
    pub licensees: Map<u64, LicenseeData>,
}

impl CatalogState {
    /// The catalog before anything was created.
    pub open spec fn empty() -> CatalogState {
        CatalogState {
            next_id: 0,
            songs: Map::empty(),
            owners: Map::empty(),
            licenses: Map::empty(),
            licensees: Map::empty(),
        }
    }

    /// What holds of every catalog: each record is sound.
    pub open spec fn valid(self) -> bool {
        &&& forall|k: u64| #[trigger]
            self.songs.contains_key(k) ==> sound::<Song>(self.songs[k], k, self.next_id)
        &&& forall|k: u64| #[trigger]
            self.owners.contains_key(k) ==> sound::<Owner>(self.owners[k], k, self.next_id)
        &&& forall|k: u64| #[trigger]
            self.licenses.contains_key(k) ==> sound::<License>(self.licenses[k], k, self.next_id)
        &&& forall|k: u64| #[trigger]
            self.licensees.contains_key(k) ==> sound::<Licensee>(self.licensees[k], k, self.next_id)
    }
}

/// A state after an operation and what the operation returned.
pub struct Step<T> {
    pub state: CatalogState,
    pub outcome: Result<T, ErrorKind>,
}

/// `list` without the ids of `gone`, the others in their order.
pub open spec fn without(list: Seq<u64>, gone: Set<u64>) -> Seq<u64> {
    list.filter(|id: u64| !gone.contains(id))
}

/// What a caller is told of a result that carries a record: the record's value,
/// or the error's kind.
pub open spec fn seen<T: View>(r: Result<T, Error>) -> Result<T::V, ErrorKind> {
    match r {
        Ok(value) => Ok(value@),
        Err(e) => Err(e.kind()),
    }
}

/// What a caller is told of a result: the error's kind in place of the error.
pub open spec fn told<T>(r: Result<T, Error>) -> Result<T, ErrorKind> {
    match r {
        Ok(value) => Ok(value),
        Err(e) => Err(e.kind()),
    }
}

impl CatalogState {
    /// The operation failed and changed nothing.
    pub open spec fn fail<T>(self, kind: ErrorKind) -> Step<T> {
        Step { state: self, outcome: Err(kind) }
    }

    /// The operation succeeded and left this state.
    pub open spec fn done<T>(self, value: T) -> Step<T> {
        Step { state: self, outcome: Ok(value) }
    }

    /// This state with another owner table.
    pub open spec fn with_owners(self, owners: Map<u64, OwnerData>) -> CatalogState {
        CatalogState { owners, ..self }
    }

    /// This state with another licensee table.
    pub open spec fn with_licensees(self, licensees: Map<u64, LicenseeData>) -> CatalogState {
        CatalogState { licensees, ..self }
    }

    /// The authorization gate: the owner must exist and `caller` must be the
    /// credential it was created with.
    pub open spec fn require_owner(self, owner_id: u64, caller: Seq<char>) -> Result<
        (),
        ErrorKind,
    > {
        if !self.owners.contains_key(owner_id) {
            Err(ErrorKind::NotFound)
        } else if self.owners[owner_id].owner_principal != caller {
            Err(ErrorKind::Unauthorized)
        } else {
            Ok(())
        }
    }

    /// Appends `song_id` to the owner's songs unless it is among them. Fails
    /// with `NotFound` if there is no such owner, and with `InvalidPayload` if
    /// the owner's record would outgrow the bound.
    pub open spec fn attach_song_to_owner(self, owner_id: u64, song_id: u64) -> Step<()> {
        if !self.owners.contains_key(owner_id) {
            self.fail(ErrorKind::NotFound)
        } else {
            let owner = self.owners[owner_id];
            let grown = OwnerData { song_ids: owner.song_ids.push(song_id), ..owner };
            if owner.song_ids.contains(song_id) {
                self.done(())
            } else if !owner_fits(grown) {
                self.fail(ErrorKind::InvalidPayload)
            } else {
                self.with_owners(self.owners.insert(owner_id, grown)).done(())
            }
        }
    }

    /// Appends `license_id` to the owner's licenses unless it is among them.
    /// Fails with `NotFound` if there is no such owner, and with
    /// `InvalidPayload` if the owner's record would outgrow the bound.
    pub open spec fn attach_license_to_owner(self, owner_id: u64, license_id: u64) -> Step<()> {
        if !self.owners.contains_key(owner_id) {
            self.fail(ErrorKind::NotFound)
        } else {
            let owner = self.owners[owner_id];
            let grown = OwnerData { license_ids: owner.license_ids.push(license_id), ..owner };
            if owner.license_ids.contains(license_id) {
                self.done(())
            } else if !owner_fits(grown) {
                self.fail(ErrorKind::InvalidPayload)
            } else {
                self.with_owners(self.owners.insert(owner_id, grown)).done(())
            }
        }
    }

    /// Appends `license_id` to the licensee's licenses unless it is among
    /// them. Fails with `NotFound` if there is no such licensee, and with
    /// `InvalidPayload` if the licensee's record would outgrow the bound.
    pub open spec fn attach_license_to_licensee(self, licensee_id: u64, license_id: u64) -> Step<
        (),
    > {
        if !self.licensees.contains_key(licensee_id) {
            self.fail(ErrorKind::NotFound)
        } else {
            let licensee = self.licensees[licensee_id];
            let grown = LicenseeData { licenses: licensee.licenses.push(license_id), ..licensee };
            if licensee.licenses.contains(license_id) {
                self.done(())
            } else if !licensee_fits(grown) {
                self.fail(ErrorKind::InvalidPayload)
            } else {
                self.with_licensees(self.licensees.insert(licensee_id, grown)).done(())
            }
        }
    }

    /// Takes `license_id` out of the owner's licenses. Fails with `NotFound`
    /// if there is no such owner or the id is not among its licenses.
    pub open spec fn detach_license_from_owner(self, owner_id: u64, license_id: u64) -> Step<()> {
        if !self.owners.contains_key(owner_id) || !self.owners[owner_id].license_ids.contains(
            license_id,
        ) {
            self.fail(ErrorKind::NotFound)
        } else {
            let owner = self.owners[owner_id];
            let shrunk = OwnerData {
                license_ids: without(owner.license_ids, set![license_id]),
                ..owner
            };
            self.with_owners(self.owners.insert(owner_id, shrunk)).done(())
        }
    }

    /// Takes `license_id` out of the licensee's licenses. Fails with
    /// `NotFound` if there is no such licensee or the id is not among its
    /// licenses.
    pub open spec fn detach_license_from_licensee(self, licensee_id: u64, license_id: u64) -> Step<
        (),
    > {
        if !self.licensees.contains_key(licensee_id)
            || !self.licensees[licensee_id].licenses.contains(license_id) {
            self.fail(ErrorKind::NotFound)
        } else {
            let licensee = self.licensees[licensee_id];
            let shrunk = LicenseeData {
                licenses: without(licensee.licenses, set![license_id]),
                ..licensee
            };
            self.with_licensees(self.licensees.insert(licensee_id, shrunk)).done(())
        }
    }

    /// The licenses for the song that name the licensee.
    pub open spec fn song_licenses_of(self, song_id: u64, licensee_id: u64) -> Set<u64> {
        Set::new(
            |k: u64|
                self.licenses.contains_key(k) && self.licenses[k].song_id == song_id
                    && self.licenses[k].licensee_id == licensee_id,
        )
    }

    /// Whether the license is among the licenses of the licensee it names.
    pub open spec fn license_listed(self, license_id: u64) -> bool {
        let licensee_id = self.licenses[license_id].licensee_id;
        self.licensees.contains_key(licensee_id) && self.licensees[licensee_id].licenses.contains(
            license_id,
        )
    }

    /// Whether some license for the song is not listed by its licensee.
    pub open spec fn song_license_unlisted(self, song_id: u64) -> bool {
        exists|k: u64|
            self.licenses.contains_key(k) && (#[trigger] self.licenses[k]).song_id == song_id
                && !self.license_listed(k)
    }

    /// The licensee table after every license for the song has left the list
    /// of its licensee.
    pub open spec fn licensees_without_song(self, song_id: u64) -> Map<u64, LicenseeData> {
        Map::new(
            |l: u64| self.licensees.contains_key(l),
            |l: u64|
                LicenseeData {
                    licenses: without(
                        self.licensees[l].licenses,
                        self.song_licenses_of(song_id, l),
                    ),
                    ..self.licensees[l]
                },
        )
    }

    /// Takes every license for the song out of the list of its licensee, all
    /// of them or none. Fails with `NotFound` if there is no such song, or if
    /// one of its licenses names a licensee that is missing or does not list
    /// it.
    pub open spec fn cascade_delete_song(self, song_id: u64) -> Step<()> {
        if !self.songs.contains_key(song_id) || self.song_license_unlisted(song_id) {
            self.fail(ErrorKind::NotFound)
        } else {
            self.with_licensees(self.licensees_without_song(song_id)).done(())
        }
    }

    /// Takes the song out of its owner's songs. Fails with `NotFound` if there
    /// is no such song, if its owner is missing, or if the owner does not list
    /// the song.
    pub open spec fn detach_song_from_owner(self, song_id: u64) -> Step<()> {
        if !self.songs.contains_key(song_id) {
            self.fail(ErrorKind::NotFound)
        } else {
            let owner_id = self.songs[song_id].owner_id;
            if !self.owners.contains_key(owner_id) || !self.owners[owner_id].song_ids.contains(
                song_id,
            ) {
                self.fail(ErrorKind::NotFound)
            } else {
                let owner = self.owners[owner_id];
                let shrunk = OwnerData {
                    song_ids: without(owner.song_ids, set![song_id]),
                    ..owner
                };
                self.with_owners(self.owners.insert(owner_id, shrunk)).done(())
            }
        }
    }

    /// The identifier after the next one.
    pub open spec fn bumped(self) -> u64 {
        (self.next_id + 1) as u64
    }

    /// The owner that `create_owner` makes for `caller`.
    pub open spec fn new_owner(self, payload: OwnerPayload, caller: Seq<char>) -> OwnerData {
        payload.as_owner(self.next_id, caller)
    }

    /// Registers an owner under the next identifier, with the caller as its
    /// credential and with empty lists.
    pub open spec fn create_owner(self, payload: OwnerPayload, caller: Seq<char>) -> Step<
        OwnerData,
    > {
        let owner = self.new_owner(payload, caller);
        CatalogState {
            next_id: self.bumped(),
            owners: self.owners.insert(owner.id, owner),
            ..self
        }.done(owner)
    }

    /// The licensee that `create_licensee` makes.
    pub open spec fn new_licensee(self, payload: LicenseePayload) -> LicenseeData {
        payload.as_licensee(self.next_id)
    }

    /// Registers a licensee under the next identifier, with an empty list.
    pub open spec fn create_licensee(self, payload: LicenseePayload) -> Step<LicenseeData> {
        let licensee = self.new_licensee(payload);
        CatalogState {
            next_id: self.bumped(),
            licensees: self.licensees.insert(licensee.id, licensee),
            ..self
        }.done(licensee)
    }

    /// The song that `create_song` makes.
    pub open spec fn new_song(self, payload: SongPayload) -> SongData {
        payload.as_song(self.next_id)
    }

    /// Registers a song under the next identifier and appends it to the songs
    /// of its owner. Fails, and changes nothing, if the owner is missing
    /// (`NotFound`) or cannot list another song (`InvalidPayload`).
    pub open spec fn create_song(self, payload: SongPayload) -> Step<SongData> {
        let song = self.new_song(payload);
        let attached = self.attach_song_to_owner(payload.owner_id, song.id);
        match attached.outcome {
            Err(kind) => self.fail(kind),
            Ok(_) => CatalogState {
                next_id: self.bumped(),
                songs: self.songs.insert(song.id, song),
                ..attached.state
            }.done(song),
        }
    }

    /// The song after an update: id and owner stay, the rest is the payload's.
    pub open spec fn updated_song(self, payload: UpdateSongPayload) -> SongData {
        payload.applied_to(self.songs[payload.id])
    }

    /// Replaces title, artist, year, genre and price of a song, for its owner
    /// only.
    pub open spec fn update_song(self, payload: UpdateSongPayload, caller: Seq<char>) -> Step<
        SongData,
    > {
        if !self.songs.contains_key(payload.id) {
            self.fail(ErrorKind::NotFound)
        } else {
            match self.require_owner(self.songs[payload.id].owner_id, caller) {
                Err(kind) => self.fail(kind),
                Ok(_) => {
                    let song = self.updated_song(payload);
                    CatalogState { songs: self.songs.insert(payload.id, song), ..self }.done(song)
                },
            }
        }
    }

    /// Deletes a song, for its owner only: first its licenses leave the lists
    /// of their licensees, then the song leaves the list of its owner, then
    /// the record goes. A step that fails ends the deletion; the steps before
    /// it stay done.
    pub open spec fn delete_song(self, id: u64, caller: Seq<char>) -> Step<SongData> {
        if !self.songs.contains_key(id) {
            self.fail(ErrorKind::NotFound)
        } else {
            match self.require_owner(self.songs[id].owner_id, caller) {
                Err(kind) => self.fail(kind),
                Ok(_) => {
                    let cascaded = self.cascade_delete_song(id);
                    let detached = cascaded.state.detach_song_from_owner(id);
                    match (cascaded.outcome, detached.outcome) {
                        (Err(kind), _) => cascaded.state.fail(kind),
                        (_, Err(kind)) => detached.state.fail(kind),
                        _ => CatalogState {
                            songs: detached.state.songs.remove(id),
                            ..detached.state
                        }.done(self.songs[id]),
                    }
                },
            }
        }
    }

    /// The license that `create_license_request` makes: not approved, at
    /// price 0, with the owner of the song as its owner.
    pub open spec fn new_license(self, payload: LicensePayload) -> LicenseData {
        payload.as_license(self.next_id, self.songs[payload.song_id].owner_id)
    }

    /// Registers a license request under the next identifier. Fails with
    /// `NotFound` if the song or the licensee is missing.
    pub open spec fn create_license_request(self, payload: LicensePayload) -> Step<LicenseData> {
        if !self.songs.contains_key(payload.song_id) || !self.licensees.contains_key(
            payload.licensee_id,
        ) {
            self.fail(ErrorKind::NotFound)
        } else {
            let license = self.new_license(payload);
            CatalogState {
                next_id: self.bumped(),
                licenses: self.licenses.insert(license.id, license),
                ..self
            }.done(license)
        }
    }

    /// What stands against a change of the license by `caller`: the license,
    /// its owner or its licensee is missing (`NotFound`), or the caller is not
    /// the owner (`Unauthorized`).
    pub open spec fn license_gate(self, license_id: u64, caller: Seq<char>) -> Result<
        (),
        ErrorKind,
    > {
        if !self.licenses.contains_key(license_id) {
            Err(ErrorKind::NotFound)
        } else {
            match self.require_owner(self.licenses[license_id].owner_id, caller) {
                Err(kind) => Err(kind),
                Ok(_) => if !self.licensees.contains_key(self.licenses[license_id].licensee_id) {
                    Err(ErrorKind::NotFound)
                } else {
                    Ok(())
                },
            }
        }
    }

    /// Approves a license at the payload's cost, for its owner only: the
    /// license joins the list of its owner, then that of its licensee, then it
    /// is stored as approved. Fails with `AlreadyApproved` if it is approved. A
    /// step that fails ends the approval; the steps before it stay done.
    pub open spec fn approve_license(self, payload: Approvepayload, caller: Seq<char>) -> Step<
        LicenseData,
    > {
        let id = payload.license_id;
        let license = self.licenses[id];
        match self.license_gate(id, caller) {
            Err(kind) => self.fail(kind),
            Ok(_) => if license.approved {
                self.fail(ErrorKind::AlreadyApproved)
            } else {
                let first = self.attach_license_to_owner(license.owner_id, id);
                let second = first.state.attach_license_to_licensee(license.licensee_id, id);
                let approved = LicenseData { approved: true, price: payload.cost, ..license };
                match (first.outcome, second.outcome) {
                    (Err(kind), _) => first.state.fail(kind),
                    (_, Err(kind)) => second.state.fail(kind),
                    _ => CatalogState {
                        licenses: self.licenses.insert(id, approved),
                        ..second.state
                    }.done(approved),
                }
            },
        }
    }

    /// Revokes a license, for its owner only: the license leaves the list of
    /// its owner, then that of its licensee, then it is stored as not approved,
    /// at the price it had. A step that fails ends the revocation; the steps
    /// before it stay done.
    pub open spec fn revoke_license(self, payload: ProtectedPayload, caller: Seq<char>) -> Step<
        LicenseData,
    > {
        let id = payload.license_id;
        let license = self.licenses[id];
        match self.license_gate(id, caller) {
            Err(kind) => self.fail(kind),
            Ok(_) => {
                let first = self.detach_license_from_owner(license.owner_id, id);
                let second = first.state.detach_license_from_licensee(license.licensee_id, id);
                let revoked = LicenseData { approved: false, ..license };
                match (first.outcome, second.outcome) {
                    (Err(kind), _) => first.state.fail(kind),
                    (_, Err(kind)) => second.state.fail(kind),
                    _ => CatalogState {
                        licenses: self.licenses.insert(id, revoked),
                        ..second.state
                    }.done(revoked),
                }
            },
        }
    }

    /// The song with this id.
    pub open spec fn get_song(self, id: u64) -> Result<SongData, ErrorKind> {
        if self.songs.contains_key(id) {
            Ok(self.songs[id])
        } else {
            Err(ErrorKind::NotFound)
        }
    }

    /// The license with this id.
    pub open spec fn get_license(self, id: u64) -> Result<LicenseData, ErrorKind> {
        if self.licenses.contains_key(id) {
            Ok(self.licenses[id])
        } else {
            Err(ErrorKind::NotFound)
        }
    }

    /// The licensee with this id.
    pub open spec fn get_licensee(self, id: u64) -> Result<LicenseeData, ErrorKind> {
        if self.licensees.contains_key(id) {
            Ok(self.licensees[id])
        } else {
            Err(ErrorKind::NotFound)
        }
    }

    /// The owner of the song with this id, without its lists.
    pub open spec fn get_song_owner(self, id: u64) -> Result<ReturnOwnerData, ErrorKind> {
        if !self.songs.contains_key(id) || !self.owners.contains_key(self.songs[id].owner_id) {
            Err(ErrorKind::NotFound)
        } else {
            let owner = self.owners[self.songs[id].owner_id];
            Ok(
                ReturnOwnerData {
                    id: owner.id,
                    owner_principal: owner.owner_principal,
                    name: owner.name,
                    email: owner.email,
                },
            )
        }
    }

    /// The licenses that name this owner.
    pub open spec fn licenses_of_owner(self, owner_id: u64) -> Map<u64, LicenseData> {
        Map::new(
            |k: u64| self.licenses.contains_key(k) && self.licenses[k].owner_id == owner_id,
            |k: u64| self.licenses[k],
        )
    }

    /// The licenses that name this licensee.
    pub open spec fn licenses_of_licensee(self, licensee_id: u64) -> Map<u64, LicenseData> {
        Map::new(
            |k: u64| self.licenses.contains_key(k) && self.licenses[k].licensee_id == licensee_id,
            |k: u64| self.licenses[k],
        )
    }
}

} // verus!
