//! The entity store: four tables of records and the identifier counter.
//!
//! A table holds the byte form of each record under the record's id. The
//! catalog's value is what those bytes decode to; `wf` says that all of them do
//! decode and that the value is valid. [`Catalog::new`] and [`Catalog::open`]
//! establish `wf`, and every operation that changes the catalog keeps it.

use vstd::prelude::*;
use crate::model::{sound, CatalogState};
use crate::records::{Record, MAX_ENTITY_SIZE};
use crate::stable::{
    cell_get, cell_new, cell_open, cell_set, cell_value, regions_open, table_entries, table_get,
    table_insert, table_new, table_open, table_remove, table_scan, IdCell, Regions, Table,
};
use crate::types::{License, Licensee, Owner, Song};

verus! {

/// The catalog in stable memory.
pub struct Catalog {
    regions: Regions,
    counter: IdCell,
    songs: Table,
    owners: Table,
    licenses: Table,
    licensees: Table,
}

/// The records that the entries of a table decode to.
pub closed spec fn records_of<T: Record>(raw: Map<u64, Seq<u8>>) -> Map<u64, T::V> {
    Map::new(|k: u64| raw.contains_key(k), |k: u64| T::decoded(raw[k]).unwrap())
}

/// Every entry of the table is the byte form of a record.
pub closed spec fn holds<T: Record>(raw: Map<u64, Seq<u8>>) -> bool {
    forall|k: u64| #[trigger] raw.contains_key(k) ==> T::decoded(raw[k]) is Some
}

/// Whether `list` holds the records of `table`, each once, by ascending id.
pub open spec fn listed<T: Record>(list: Seq<T>, table: Map<u64, T::V>) -> bool {
    &&& forall|i: int|
        0 <= i < list.len() ==> table.contains_key(T::id_of((#[trigger] list[i])@))
            && table[T::id_of(list[i]@)] == list[i]@
    &&& forall|i: int, j: int|
        0 <= i < j < list.len() ==> T::id_of((#[trigger] list[i])@) < T::id_of(
            (#[trigger] list[j])@,
        )
    &&& forall|k: u64| #[trigger]
        table.contains_key(k) ==> exists|i: int|
            0 <= i < list.len() && T::id_of((#[trigger] list[i])@) == k
}

/// The record stored under `id`, if there is one.
fn fetch<T: Record>(table: &Table, id: u64) -> (found: Option<T>)
    requires
        holds::<T>(table_entries(*table)),
    ensures
        match found {
            Some(e) => records_of::<T>(table_entries(*table)).contains_key(id) && records_of::<T>(
                table_entries(*table),
            )[id] == e@,
            None => !records_of::<T>(table_entries(*table)).contains_key(id),
        },
{
    match table_get(table, id) {
        None => None,
        Some(bytes) => T::from_bytes(&bytes),
    }
}

/// Stores the record under its id, in place of what was stored there.
fn write<T: Record>(table: &mut Table, record: &T)
    requires
        holds::<T>(table_entries(*old(table))),
        T::bounded(record@),
    ensures
        holds::<T>(table_entries(*final(table))),
        records_of::<T>(table_entries(*final(table))) == records_of::<T>(
            table_entries(*old(table)),
        ).insert(T::id_of(record@), record@),
{
    let bytes = record.to_bytes();
    let _ = table_insert(table, record.id(), bytes);
    assert(records_of::<T>(table_entries(*table)) =~= records_of::<T>(
        table_entries(*old(table)),
    ).insert(T::id_of(record@), record@));
}

/// Takes the record stored under `id` out of the table.
fn take<T: Record>(table: &mut Table, id: u64) -> (found: Option<T>)
    requires
        holds::<T>(table_entries(*old(table))),
    ensures
        holds::<T>(table_entries(*final(table))),
        records_of::<T>(table_entries(*final(table))) == records_of::<T>(
            table_entries(*old(table)),
        ).remove(id),
        match found {
            Some(e) => records_of::<T>(table_entries(*old(table))).contains_key(id)
                && records_of::<T>(table_entries(*old(table)))[id] == e@,
            None => !records_of::<T>(table_entries(*old(table))).contains_key(id),
        },
{
    let found = match table_remove(table, id) {
        None => None,
        Some(bytes) => T::from_bytes(&bytes),
    };
    assert(records_of::<T>(table_entries(*table)) =~= records_of::<T>(
        table_entries(*old(table)),
    ).remove(id));
    found
}

/// Every record of the table, by ascending id.
fn scan<T: Record>(table: &Table) -> (list: Vec<T>)
    requires
        holds::<T>(table_entries(*table)),
        forall|k: u64| #[trigger]
            records_of::<T>(table_entries(*table)).contains_key(k) ==> T::id_of(
                records_of::<T>(table_entries(*table))[k],
            ) == k,
    ensures
        listed(list@, records_of::<T>(table_entries(*table))),
{
    let ghost records = records_of::<T>(table_entries(*table));
    let raw = table_scan(table);
    let mut list: Vec<T> = Vec::new();
    let mut i: usize = 0;
    while i < raw.len()
        invariant
            i <= raw.len(),
            list@.len() == i,
            holds::<T>(table_entries(*table)),
            records == records_of::<T>(table_entries(*table)),
            forall|a: int|
                0 <= a < raw@.len() ==> table_entries(*table).contains_key((#[trigger] raw@[a]).0)
                    && table_entries(*table)[raw@[a].0] == raw@[a].1@,
            forall|a: int| 0 <= a < i ==> records[raw@[a].0] == (#[trigger] list@[a])@,
        decreases raw.len() - i,
    {
        assert(table_entries(*table).contains_key(raw@[i as int].0));
        if let Some(e) = T::from_bytes(&raw[i].1) {
            list.push(e);
        }
        i += 1;
    }
    proof {
        assert forall|a: int| 0 <= a < list@.len() implies T::id_of((#[trigger] list@[a])@)
            == raw@[a].0 by {
            assert(table_entries(*table).contains_key(raw@[a].0));
        }
        assert forall|k: u64| #[trigger] records.contains_key(k) implies exists|a: int|
            0 <= a < list@.len() && T::id_of((#[trigger] list@[a])@) == k by {
            let a = choose|a: int| 0 <= a < raw@.len() && (#[trigger] raw@[a]).0 == k;
            assert(T::id_of(list@[a]@) == k);
        }
        assert forall|a: int, b: int| 0 <= a < b < list@.len() implies T::id_of(
            (#[trigger] list@[a])@,
        ) < T::id_of((#[trigger] list@[b])@) by {
            assert(raw@[a].0 < raw@[b].0);
        }
    }
    list
}

/// Whether the table holds records only, each of them sound.
fn sound_table<T: Record>(table: &Table, next_id: u64) -> (ok: bool)
    ensures
        ok == (holds::<T>(table_entries(*table)) && forall|k: u64| #[trigger]
            records_of::<T>(table_entries(*table)).contains_key(k) ==> sound::<T>(
                records_of::<T>(table_entries(*table))[k],
                k,
                next_id,
            )),
{
    let ghost records = records_of::<T>(table_entries(*table));
    let raw = table_scan(table);
    let mut i: usize = 0;
    while i < raw.len()
        invariant
            i <= raw.len(),
            records == records_of::<T>(table_entries(*table)),
            forall|a: int|
                0 <= a < raw@.len() ==> table_entries(*table).contains_key((#[trigger] raw@[a]).0)
                    && table_entries(*table)[raw@[a].0] == raw@[a].1@,
            forall|a: int|
                0 <= a < i ==> T::decoded((#[trigger] raw@[a]).1@) is Some && sound::<T>(
                    records[raw@[a].0],
                    raw@[a].0,
                    next_id,
                ),
        decreases raw.len() - i,
    {
        let key = raw[i].0;
        assert(table_entries(*table).contains_key(raw@[i as int].0));
        let ok = match T::from_bytes(&raw[i].1) {
            None => false,
            Some(e) => {
                proof {
                    T::lemma_bounded(raw@[i as int].1@);
                }
                e.id() == key && key < next_id && raw[i].1.len() <= MAX_ENTITY_SIZE && e.is_tidy()
            },
        };
        if !ok {
            assert(records.contains_key(key));
            return false;
        }
        i += 1;
    }
    proof {
        assert forall|k: u64| #[trigger] table_entries(*table).contains_key(k) implies T::decoded(
            table_entries(*table)[k],
        ) is Some && sound::<T>(records[k], k, next_id) by {
            let a = choose|a: int| 0 <= a < raw@.len() && (#[trigger] raw@[a]).0 == k;
            assert(T::decoded(raw@[a].1@) is Some);
        }
        assert forall|k: u64| #[trigger] records.contains_key(k) implies sound::<T>(
            records[k],
            k,
            next_id,
        ) by {
            assert(table_entries(*table).contains_key(k));
        }
    }
    true
}

impl View for Catalog {
    type V = CatalogState;

    closed spec fn view(&self) -> CatalogState {
        CatalogState {
            next_id: cell_value(self.counter),
            songs: records_of::<Song>(table_entries(self.songs)),
            owners: records_of::<Owner>(table_entries(self.owners)),
            licenses: records_of::<License>(table_entries(self.licenses)),
            licensees: records_of::<Licensee>(table_entries(self.licensees)),
        }
    }
}

impl Catalog {
    /// The tables hold records only, and the catalog's value is valid.
    pub closed spec fn wf(&self) -> bool {
        &&& holds::<Song>(table_entries(self.songs))
        &&& holds::<Owner>(table_entries(self.owners))
        &&& holds::<License>(table_entries(self.licenses))
        &&& holds::<Licensee>(table_entries(self.licensees))
        &&& self@.valid()
    }

    /// The catalog's value, table by table.
    proof fn lemma_tables(&self)
        ensures
            self@.next_id == cell_value(self.counter),
            self@.songs == records_of::<Song>(table_entries(self.songs)),
            self@.owners == records_of::<Owner>(table_entries(self.owners)),
            self@.licenses == records_of::<License>(table_entries(self.licenses)),
            self@.licensees == records_of::<Licensee>(table_entries(self.licensees)),
    {
    }

    /// A well-formed catalog has a valid value.
    pub proof fn lemma_valid(&self)
        requires
            self.wf(),
        ensures
            self@.valid(),
    {
    }

    /// A catalog without records, whose first identifier is 0. It overwrites
    /// what the memory of the process held.
    pub fn new() -> (catalog: Catalog)
        ensures
            catalog.wf(),
            catalog@ == CatalogState::empty(),
    {
        let regions = regions_open();
        let counter = cell_new(&regions, 0, 0);
        let songs = table_new(&regions, 1);
        let owners = table_new(&regions, 2);
        let licenses = table_new(&regions, 3);
        let licensees = table_new(&regions, 4);
        let catalog = Catalog { regions, counter, songs, owners, licenses, licensees };
        proof {
            assert(catalog@.songs =~= Map::empty());
            assert(catalog@.owners =~= Map::empty());
            assert(catalog@.licenses =~= Map::empty());
            assert(catalog@.licensees =~= Map::empty());
        }
        catalog
    }

    /// The catalog that the regions hold, as it is; an empty one where they
    /// hold none. Nothing is known of it until [`Catalog::is_well_formed`] has
    /// looked at it.
    fn restore_from(regions: Regions) -> (catalog: Catalog)
        ensures
            catalog.regions() == regions,
    {
        let counter = cell_open(&regions, 0, 0);
        let songs = table_open(&regions, 1);
        let owners = table_open(&regions, 2);
        let licenses = table_open(&regions, 3);
        let licensees = table_open(&regions, 4);
        Catalog { regions, counter, songs, owners, licenses, licensees }
    }

    /// Lets go of the catalog and hands out the regions in which it is stored,
    /// for [`Catalog::open_from`] to find it again.
    pub fn close(self) -> (regions: Regions)
        ensures
            regions == self.regions(),
    {
        self.regions
    }

    /// Whether the tables hold records only and the catalog's value is valid.
    pub fn is_well_formed(&self) -> (ok: bool)
        ensures
            ok == self.wf(),
    {
        proof {
            self.lemma_tables();
        }
        let next_id = cell_get(&self.counter);
        sound_table::<Song>(&self.songs, next_id) && sound_table::<Owner>(&self.owners, next_id)
            && sound_table::<License>(&self.licenses, next_id) && sound_table::<Licensee>(
            &self.licensees,
            next_id,
        )
    }

    /// The catalog that the regions hold, if it is well formed; an empty one
    /// where they hold none.
    pub fn open_from(regions: Regions) -> (found: Option<Catalog>)
        ensures
            found is Some ==> found.unwrap().wf() && found.unwrap().regions() == regions,
    {
        Catalog::restore_from(regions).checked()
    }

    /// The catalog that the memory of the process holds, if it is well formed;
    /// an empty one where the memory holds none.
    pub fn open() -> (found: Option<Catalog>)
        ensures
            found is Some ==> found.unwrap().wf(),
    {
        Catalog::open_from(regions_open())
    }

    /// The regions in which the catalog is stored.
    pub closed spec fn regions(&self) -> Regions {
        self.regions
    }

    /// This catalog if it is well formed, and nothing if it is not.
    pub fn checked(self) -> (found: Option<Catalog>)
        ensures
            match found {
                Some(catalog) => self.wf() && catalog == self,
                None => !self.wf(),
            },
    {
        if self.is_well_formed() {
            Some(self)
        } else {
            None
        }
    }

    /// The identifier that [`Catalog::next_id`] hands out next.
    pub fn peek_id(&self) -> (id: u64)
        ensures
            id == self@.next_id,
    {
        cell_get(&self.counter)
    }

    /// Hands out the next identifier and moves the counter past it: an
    /// identifier is handed out once, and each is larger than the one before.
    pub fn next_id(&mut self) -> (id: u64)
        requires
            old(self).wf(),
            old(self)@.next_id < u64::MAX,
        ensures
            final(self).wf(),
            id == old(self)@.next_id,
            final(self)@ == (CatalogState { next_id: (id + 1) as u64, ..old(self)@ }),
    {
        let id = cell_get(&self.counter);
        let _ = cell_set(&mut self.counter, id + 1);
        id
    }

    /// The song stored under `id`, if there is one.
    pub(crate) fn song(&self, id: u64) -> (found: Option<Song>)
        requires
            self.wf(),
        ensures
            match found {
                Some(e) => self@.songs.contains_key(id) && self@.songs[id] == e@,
                None => !self@.songs.contains_key(id),
            },
    {
        fetch(&self.songs, id)
    }

    /// The owner stored under `id`, if there is one.
    pub(crate) fn owner(&self, id: u64) -> (found: Option<Owner>)
        requires
            self.wf(),
        ensures
            match found {
                Some(e) => self@.owners.contains_key(id) && self@.owners[id] == e@,
                None => !self@.owners.contains_key(id),
            },
    {
        fetch(&self.owners, id)
    }

    /// The license stored under `id`, if there is one.
    pub(crate) fn license(&self, id: u64) -> (found: Option<License>)
        requires
            self.wf(),
        ensures
            match found {
                Some(e) => self@.licenses.contains_key(id) && self@.licenses[id] == e@,
                None => !self@.licenses.contains_key(id),
            },
    {
        fetch(&self.licenses, id)
    }

    /// The licensee stored under `id`, if there is one.
    pub(crate) fn licensee(&self, id: u64) -> (found: Option<Licensee>)
        requires
            self.wf(),
        ensures
            match found {
                Some(e) => self@.licensees.contains_key(id) && self@.licensees[id] == e@,
                None => !self@.licensees.contains_key(id),
            },
    {
        fetch(&self.licensees, id)
    }

    /// Stores `song` under its id, in place of what was stored there.
    pub(crate) fn put_song(&mut self, song: &Song)
        requires
            old(self).wf(),
            sound::<Song>(song@, song.id, old(self)@.next_id),
        ensures
            final(self).wf(),
            final(self)@ == (CatalogState {
                songs: old(self)@.songs.insert(song.id, song@),
                ..old(self)@
            }),
    {
        write(&mut self.songs, song);
    }

    /// Stores `owner` under its id, in place of what was stored there.
    pub(crate) fn put_owner(&mut self, owner: &Owner)
        requires
            old(self).wf(),
            sound::<Owner>(owner@, owner.id, old(self)@.next_id),
        ensures
            final(self).wf(),
            final(self)@ == (CatalogState {
                owners: old(self)@.owners.insert(owner.id, owner@),
                ..old(self)@
            }),
    {
        write(&mut self.owners, owner);
    }

    /// Stores `license` under its id, in place of what was stored there.
    pub(crate) fn put_license(&mut self, license: &License)
        requires
            old(self).wf(),
            sound::<License>(license@, license.id, old(self)@.next_id),
        ensures
            final(self).wf(),
            final(self)@ == (CatalogState {
                licenses: old(self)@.licenses.insert(license.id, license@),
                ..old(self)@
            }),
    {
        write(&mut self.licenses, license);
    }

    /// Stores `licensee` under its id, in place of what was stored there.
    pub(crate) fn put_licensee(&mut self, licensee: &Licensee)
        requires
            old(self).wf(),
            sound::<Licensee>(licensee@, licensee.id, old(self)@.next_id),
        ensures
            final(self).wf(),
            final(self)@ == (CatalogState {
                licensees: old(self)@.licensees.insert(licensee.id, licensee@),
                ..old(self)@
            }),
    {
        write(&mut self.licensees, licensee);
    }

    /// Takes the song stored under `id` out of its table.
    pub(crate) fn take_song(&mut self, id: u64) -> (found: Option<Song>)
        requires
            old(self).wf(),
        ensures
            final(self).wf(),
            final(self)@ == (CatalogState { songs: old(self)@.songs.remove(id), ..old(self)@ }),
            match found {
                Some(e) => old(self)@.songs.contains_key(id) && old(self)@.songs[id] == e@,
                None => !old(self)@.songs.contains_key(id),
            },
    {
        proof {
            self.lemma_tables();
        }
        let found = take(&mut self.songs, id);
        proof {
            self.lemma_tables();
        }
        found
    }

    /// Every song, by ascending id.
    pub(crate) fn all_songs(&self) -> (list: Vec<Song>)
        requires
            self.wf(),
        ensures
            listed(list@, self@.songs),
    {
        proof {
            self.lemma_tables();
        }
        scan(&self.songs)
    }

    /// Every license, by ascending id.
    pub(crate) fn all_licenses(&self) -> (list: Vec<License>)
        requires
            self.wf(),
        ensures
            listed(list@, self@.licenses),
    {
        proof {
            self.lemma_tables();
        }
        scan(&self.licenses)
    }

    /// Every licensee, by ascending id.
    pub(crate) fn all_licensees(&self) -> (list: Vec<Licensee>)
        requires
            self.wf(),
        ensures
            listed(list@, self@.licensees),
    {
        proof {
            self.lemma_tables();
        }
        scan(&self.licensees)
    }
}

/// The song with this id, if the catalog holds one.
pub fn _get_song(catalog: &Catalog, id: &u64) -> (found: Option<Song>)
    requires
        catalog.wf(),
    ensures
        match found {
            Some(e) => catalog@.songs.contains_key(*id) && catalog@.songs[*id] == e@,
            None => !catalog@.songs.contains_key(*id),
        },
{
    catalog.song(*id)
}

/// The owner with this id, if the catalog holds one.
pub fn _get_owner(catalog: &Catalog, id: &u64) -> (found: Option<Owner>)
    requires
        catalog.wf(),
    ensures
        match found {
            Some(e) => catalog@.owners.contains_key(*id) && catalog@.owners[*id] == e@,
            None => !catalog@.owners.contains_key(*id),
        },
{
    catalog.owner(*id)
}

/// The license with this id, if the catalog holds one.
pub fn _get_license(catalog: &Catalog, id: &u64) -> (found: Option<License>)
    requires
        catalog.wf(),
    ensures
        match found {
            Some(e) => catalog@.licenses.contains_key(*id) && catalog@.licenses[*id] == e@,
            None => !catalog@.licenses.contains_key(*id),
        },
{
    catalog.license(*id)
}

/// The licensee with this id, if the catalog holds one.
pub fn _get_licensee(catalog: &Catalog, id: &u64) -> (found: Option<Licensee>)
    requires
        catalog.wf(),
    ensures
        match found {
            Some(e) => catalog@.licensees.contains_key(*id) && catalog@.licensees[*id] == e@,
            None => !catalog@.licensees.contains_key(*id),
        },
{
    catalog.licensee(*id)
}

} // verus!
