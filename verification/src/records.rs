//! The byte form of the four records, and the bound on its size.
//!
//! A record is stored as the concatenation of its fields, in the order in which
//! the record declares them, each in the layout that [`crate::wire`] gives it.
//! For every record the module proves that decoding inverts encoding, and that
//! the bytes of a record that decodes are the encoding of what they decode to.

use vstd::prelude::*;
use vstd::utf8::*;
use crate::lists::distinct;
use crate::types::{
    License, LicenseData, LicensePayload, Licensee, LicenseeData, LicenseePayload, Owner, OwnerData,
    OwnerPayload, Song, SongData, SongPayload, UpdateSongPayload,
};
use crate::wire::{
    flag_bytes, ids_bytes, lemma_parse_flag_exact, lemma_parse_flag_written,
    lemma_parse_ids_exact, lemma_parse_ids_written, lemma_parse_text_exact,
    lemma_parse_text_written, lemma_parse_u32_exact, lemma_parse_u32_written,
    lemma_parse_u64_exact, lemma_parse_u64_written, lemma_u32_len, lemma_u64_len, parse_flag,
    parse_ids, parse_text, parse_u32, parse_u64, put_flag, put_ids, put_text, put_u32, put_u64,
    read_flag, read_ids, read_text, read_u32, read_u64, text_bytes, u32_bytes, u64_bytes,
};

verus! {

/// The largest byte form that a table accepts.
pub const MAX_ENTITY_SIZE: usize = 1024;

/// The size of a text field in bytes.
pub open spec fn text_len(t: Seq<char>) -> nat {
    4 + encode_utf8(t).len()
}

/// The size of an id list in bytes.
pub open spec fn ids_len(ids: Seq<u64>) -> nat {
    4 + 8 * ids.len()
}

/// A text field takes as many bytes as `text_len` says.
pub proof fn lemma_text_len(t: Seq<char>)
    ensures
        text_bytes(t).len() == text_len(t),
{
    reveal(text_bytes);
    lemma_u32_len(encode_utf8(t).len() as u32);
}

/// An id list takes as many bytes as `ids_len` says.
pub proof fn lemma_ids_len(ids: Seq<u64>)
    ensures
        ids_bytes(ids).len() == ids_len(ids),
{
    reveal(ids_bytes);
    lemma_u32_len(ids.len() as u32);
}

/// What follows a field that was read; nothing if none was read.
pub open spec fn after<T>(field: Option<(T, Seq<u8>)>) -> Seq<u8> {
    match field {
        Some((_, rest)) => rest,
        None => Seq::empty(),
    }
}

/// What is left of a budget after `cost`, if it covers it. `None` is a budget
/// that was overspent before.
fn spend(budget: Option<usize>, cost: usize) -> (left: Option<usize>)
    ensures
        left == match budget {
            Some(b) if cost <= b => Some((b - cost) as usize),
            _ => None,
        },
{
    match budget {
        Some(b) if cost <= b => Some(b - cost),
        _ => None,
    }
}

/// What is left of a budget after a text field.
fn spend_str(budget: Option<usize>, t: &str) -> (left: Option<usize>)
    ensures
        left == match budget {
            Some(b) if text_len(t@) <= b => Some((b - text_len(t@)) as usize),
            _ => None,
        },
{
    spend(spend(budget, 4), t.as_bytes().len())
}

/// What is left of a budget after a text field.
fn spend_text(budget: Option<usize>, t: &String) -> (left: Option<usize>)
    ensures
        left == match budget {
            Some(b) if text_len(t@) <= b => Some((b - text_len(t@)) as usize),
            _ => None,
        },
{
    spend_str(budget, t.as_str())
}

/// What is left of a budget after an id list.
fn spend_ids(budget: Option<usize>, ids: &Vec<u64>) -> (left: Option<usize>)
    ensures
        left == match budget {
            Some(b) if ids_len(ids@) <= b => Some((b - ids_len(ids@)) as usize),
            _ => None,
        },
{
    match spend(budget, 4) {
        Some(b) if ids.len() <= b / 8 => Some(b - 8 * ids.len()),
        _ => None,
    }
}

/// A record of the catalog: a value that carries its id and has a byte form.
pub trait Record: View + Sized {
    /// The id that the record carries.
    spec fn id_of(value: Self::V) -> u64;

    /// The record that `bytes` is the byte form of, if it is one.
    spec fn decoded(bytes: Seq<u8>) -> Option<Self::V>;

    /// Whether the byte form of the record is within [`MAX_ENTITY_SIZE`].
    spec fn bounded(value: Self::V) -> bool;

    /// Whether no id list of the record holds an id twice.
    spec fn tidy(value: Self::V) -> bool;

    /// The byte form of a record is within the bound exactly if the record is.
    proof fn lemma_bounded(bytes: Seq<u8>)
        requires
            Self::decoded(bytes) is Some,
        ensures
            Self::bounded(Self::decoded(bytes).unwrap()) == (bytes.len() <= MAX_ENTITY_SIZE),
    ;

    /// The id that this record carries.
    fn id(&self) -> (id: u64)
        ensures
            id == Self::id_of(self@),
    ;

    /// Whether the byte form of this record is within [`MAX_ENTITY_SIZE`].
    fn fits(&self) -> (ok: bool)
        ensures
            ok == Self::bounded(self@),
    ;

    /// Whether no id list of this record holds an id twice.
    fn is_tidy(&self) -> (ok: bool)
        ensures
            ok == Self::tidy(self@),
    ;

    /// The byte form of this record.
    fn to_bytes(&self) -> (bytes: Vec<u8>)
        requires
            Self::bounded(self@),
        ensures
            Self::decoded(bytes@) == Some(self@),
            bytes.len() <= MAX_ENTITY_SIZE,
    ;

    /// The record that `bytes` is the byte form of, if it is one.
    fn from_bytes(bytes: &Vec<u8>) -> (found: Option<Self>)
        ensures
            match found {
                Some(e) => Self::decoded(bytes@) == Some(e@),
                None => Self::decoded(bytes@) is None,
            },
    ;
}

/// The byte form of a song.
pub open spec fn song_bytes(e: SongData) -> Seq<u8> {
    u64_bytes(e.id)
        + text_bytes(e.title)
        + text_bytes(e.artist)
        + u64_bytes(e.owner_id)
        + u32_bytes(e.year)
        + text_bytes(e.genre)
        + u32_bytes(e.price)
}

/// The size of the byte form of a song.
pub open spec fn song_len(e: SongData) -> nat {
    24 + text_len(e.title) + text_len(e.artist) + text_len(e.genre)
}

/// Whether the byte form of the song is within [`MAX_ENTITY_SIZE`].
pub open spec fn song_fits(e: SongData) -> bool {
    song_len(e) <= MAX_ENTITY_SIZE
}

/// The song that `b` is the byte form of, if it is one.
pub open spec fn parse_song(b: Seq<u8>) -> Option<SongData> {
    let id = parse_u64(b);
    let title = parse_text(after(id));
    let artist = parse_text(after(title));
    let owner_id = parse_u64(after(artist));
    let year = parse_u32(after(owner_id));
    let genre = parse_text(after(year));
    let price = parse_u32(after(genre));
    if id is Some
        && title is Some
        && artist is Some
        && owner_id is Some
        && year is Some
        && genre is Some
        && price is Some
        && after(price).len() == 0 {
        Some(
            SongData {
                id: id.unwrap().0,
                title: title.unwrap().0,
                artist: artist.unwrap().0,
                owner_id: owner_id.unwrap().0,
                year: year.unwrap().0,
                genre: genre.unwrap().0,
                price: price.unwrap().0,
            },
        )
    } else {
        None
    }
}

/// The byte form of a song is as long as `song_len` says.
pub proof fn lemma_song_len(e: SongData)
    ensures
        song_bytes(e).len() == song_len(e),
{
    lemma_u64_len(e.id);
    lemma_text_len(e.title);
    lemma_text_len(e.artist);
    lemma_u64_len(e.owner_id);
    lemma_u32_len(e.year);
    lemma_text_len(e.genre);
    lemma_u32_len(e.price);
}

/// Decoding inverts encoding.
pub proof fn lemma_song_written(e: SongData)
    requires
        song_fits(e),
    ensures
        parse_song(song_bytes(e)) == Some(e),
{
    let t7 = Seq::<u8>::empty();
    let t6 = u32_bytes(e.price) + t7;
    let t5 = text_bytes(e.genre) + t6;
    let t4 = u32_bytes(e.year) + t5;
    let t3 = u64_bytes(e.owner_id) + t4;
    let t2 = text_bytes(e.artist) + t3;
    let t1 = text_bytes(e.title) + t2;
    let t0 = u64_bytes(e.id) + t1;
    assert(song_bytes(e) =~= t0);
    lemma_parse_u64_written(e.id, t1);
    lemma_parse_text_written(e.title, t2);
    lemma_parse_text_written(e.artist, t3);
    lemma_parse_u64_written(e.owner_id, t4);
    lemma_parse_u32_written(e.year, t5);
    lemma_parse_text_written(e.genre, t6);
    lemma_parse_u32_written(e.price, t7);
}

/// Bytes that decode are the encoding of what they decode to.
pub proof fn lemma_song_exact(b: Seq<u8>)
    requires
        parse_song(b) is Some,
    ensures
        song_bytes(parse_song(b).unwrap()) == b,
        b.len() == song_len(parse_song(b).unwrap()),
{
    let e = parse_song(b).unwrap();
    let b0 = b;
    let b1 = parse_u64(b0).unwrap().1;
    let b2 = parse_text(b1).unwrap().1;
    let b3 = parse_text(b2).unwrap().1;
    let b4 = parse_u64(b3).unwrap().1;
    let b5 = parse_u32(b4).unwrap().1;
    let b6 = parse_text(b5).unwrap().1;
    let b7 = parse_u32(b6).unwrap().1;
    let t7 = Seq::<u8>::empty();
    let t6 = u32_bytes(e.price) + t7;
    let t5 = text_bytes(e.genre) + t6;
    let t4 = u32_bytes(e.year) + t5;
    let t3 = u64_bytes(e.owner_id) + t4;
    let t2 = text_bytes(e.artist) + t3;
    let t1 = text_bytes(e.title) + t2;
    let t0 = u64_bytes(e.id) + t1;
    assert(b7 =~= t7);
    assert(b6 == t6) by {
        lemma_parse_u32_exact(b6);
    }
    assert(b5 == t5) by {
        lemma_parse_text_exact(b5);
    }
    assert(b4 == t4) by {
        lemma_parse_u32_exact(b4);
    }
    assert(b3 == t3) by {
        lemma_parse_u64_exact(b3);
    }
    assert(b2 == t2) by {
        lemma_parse_text_exact(b2);
    }
    assert(b1 == t1) by {
        lemma_parse_text_exact(b1);
    }
    assert(b0 == t0) by {
        lemma_parse_u64_exact(b0);
    }
    assert(song_bytes(e) =~= t0);
    lemma_song_len(e);
}

impl Record for Song {
    open spec fn id_of(value: SongData) -> u64 {
        value.id
    }

    open spec fn decoded(bytes: Seq<u8>) -> Option<SongData> {
        parse_song(bytes)
    }

    open spec fn bounded(value: SongData) -> bool {
        song_fits(value)
    }

    open spec fn tidy(value: SongData) -> bool {
        true
    }

    proof fn lemma_bounded(bytes: Seq<u8>) {
        lemma_song_exact(bytes);
    }

    fn id(&self) -> (id: u64) {
        self.id
    }

    fn fits(&self) -> (ok: bool) {
        let left = spend(Some(MAX_ENTITY_SIZE), 24);
        let left = spend_text(left, &self.title);
        let left = spend_text(left, &self.artist);
        let left = spend_text(left, &self.genre);
        left.is_some()
    }

    fn is_tidy(&self) -> (ok: bool) {
        true
    }

    /// The fields in the order of their declaration.
    fn to_bytes(&self) -> (bytes: Vec<u8>)
        ensures
            bytes@ == song_bytes(self@),
    {
        let mut out: Vec<u8> = Vec::new();
        put_u64(&mut out, self.id);
        put_text(&mut out, &self.title);
        put_text(&mut out, &self.artist);
        put_u64(&mut out, self.owner_id);
        put_u32(&mut out, self.year);
        put_text(&mut out, &self.genre);
        put_u32(&mut out, self.price);
        proof {
            assert(out@ =~= song_bytes(self@));
            lemma_song_written(self@);
            lemma_song_len(self@);
        }
        out
    }

    fn from_bytes(bytes: &Vec<u8>) -> (found: Option<Song>) {
        assert(bytes@.skip(0) =~= bytes@);
        let at: usize = 0;
        let (id, at) = read_u64(bytes, at)?;
        let (title, at) = read_text(bytes, at)?;
        let (artist, at) = read_text(bytes, at)?;
        let (owner_id, at) = read_u64(bytes, at)?;
        let (year, at) = read_u32(bytes, at)?;
        let (genre, at) = read_text(bytes, at)?;
        let (price, at) = read_u32(bytes, at)?;
        if at != bytes.len() {
            return None;
        }
        Some(Song { id, title, artist, owner_id, year, genre, price })
    }
}

/// The byte form of an owner.
pub open spec fn owner_bytes(e: OwnerData) -> Seq<u8> {
    u64_bytes(e.id)
        + text_bytes(e.name)
        + text_bytes(e.email)
        + text_bytes(e.owner_principal)
        + ids_bytes(e.song_ids)
        + ids_bytes(e.license_ids)
}

/// The size of the byte form of an owner.
pub open spec fn owner_len(e: OwnerData) -> nat {
    8 + text_len(e.name) + text_len(e.email) + text_len(e.owner_principal) + ids_len(e.song_ids)
        + ids_len(e.license_ids)
}

/// Whether the byte form of the owner is within [`MAX_ENTITY_SIZE`].
pub open spec fn owner_fits(e: OwnerData) -> bool {
    owner_len(e) <= MAX_ENTITY_SIZE
}

/// The owner that `b` is the byte form of, if it is one.
pub open spec fn parse_owner(b: Seq<u8>) -> Option<OwnerData> {
    let id = parse_u64(b);
    let name = parse_text(after(id));
    let email = parse_text(after(name));
    let owner_principal = parse_text(after(email));
    let song_ids = parse_ids(after(owner_principal));
    let license_ids = parse_ids(after(song_ids));
    if id is Some
        && name is Some
        && email is Some
        && owner_principal is Some
        && song_ids is Some
        && license_ids is Some
        && after(license_ids).len() == 0 {
        Some(
            OwnerData {
                id: id.unwrap().0,
                name: name.unwrap().0,
                email: email.unwrap().0,
                owner_principal: owner_principal.unwrap().0,
                song_ids: song_ids.unwrap().0,
                license_ids: license_ids.unwrap().0,
            },
        )
    } else {
        None
    }
}

/// The byte form of an owner is as long as `owner_len` says.
pub proof fn lemma_owner_len(e: OwnerData)
    ensures
        owner_bytes(e).len() == owner_len(e),
{
    lemma_u64_len(e.id);
    lemma_text_len(e.name);
    lemma_text_len(e.email);
    lemma_text_len(e.owner_principal);
    lemma_ids_len(e.song_ids);
    lemma_ids_len(e.license_ids);
}

/// Decoding inverts encoding.
pub proof fn lemma_owner_written(e: OwnerData)
    requires
        owner_fits(e),
    ensures
        parse_owner(owner_bytes(e)) == Some(e),
{
    let t6 = Seq::<u8>::empty();
    let t5 = ids_bytes(e.license_ids) + t6;
    let t4 = ids_bytes(e.song_ids) + t5;
    let t3 = text_bytes(e.owner_principal) + t4;
    let t2 = text_bytes(e.email) + t3;
    let t1 = text_bytes(e.name) + t2;
    let t0 = u64_bytes(e.id) + t1;
    assert(owner_bytes(e) =~= t0);
    lemma_parse_u64_written(e.id, t1);
    lemma_parse_text_written(e.name, t2);
    lemma_parse_text_written(e.email, t3);
    lemma_parse_text_written(e.owner_principal, t4);
    lemma_parse_ids_written(e.song_ids, t5);
    lemma_parse_ids_written(e.license_ids, t6);
}

/// Bytes that decode are the encoding of what they decode to.
pub proof fn lemma_owner_exact(b: Seq<u8>)
    requires
        parse_owner(b) is Some,
    ensures
        owner_bytes(parse_owner(b).unwrap()) == b,
        b.len() == owner_len(parse_owner(b).unwrap()),
{
    let e = parse_owner(b).unwrap();
    let b0 = b;
    let b1 = parse_u64(b0).unwrap().1;
    let b2 = parse_text(b1).unwrap().1;
    let b3 = parse_text(b2).unwrap().1;
    let b4 = parse_text(b3).unwrap().1;
    let b5 = parse_ids(b4).unwrap().1;
    let b6 = parse_ids(b5).unwrap().1;
    let t6 = Seq::<u8>::empty();
    let t5 = ids_bytes(e.license_ids) + t6;
    let t4 = ids_bytes(e.song_ids) + t5;
    let t3 = text_bytes(e.owner_principal) + t4;
    let t2 = text_bytes(e.email) + t3;
    let t1 = text_bytes(e.name) + t2;
    let t0 = u64_bytes(e.id) + t1;
    assert(b6 =~= t6);
    assert(b5 == t5) by {
        lemma_parse_ids_exact(b5);
    }
    assert(b4 == t4) by {
        lemma_parse_ids_exact(b4);
    }
    assert(b3 == t3) by {
        lemma_parse_text_exact(b3);
    }
    assert(b2 == t2) by {
        lemma_parse_text_exact(b2);
    }
    assert(b1 == t1) by {
        lemma_parse_text_exact(b1);
    }
    assert(b0 == t0) by {
        lemma_parse_u64_exact(b0);
    }
    assert(owner_bytes(e) =~= t0);
    lemma_owner_len(e);
}

impl Record for Owner {
    open spec fn id_of(value: OwnerData) -> u64 {
        value.id
    }

    open spec fn decoded(bytes: Seq<u8>) -> Option<OwnerData> {
        parse_owner(bytes)
    }

    open spec fn bounded(value: OwnerData) -> bool {
        owner_fits(value)
    }

    open spec fn tidy(value: OwnerData) -> bool {
        value.song_ids.no_duplicates() && value.license_ids.no_duplicates()
    }

    proof fn lemma_bounded(bytes: Seq<u8>) {
        lemma_owner_exact(bytes);
    }

    fn id(&self) -> (id: u64) {
        self.id
    }

    fn fits(&self) -> (ok: bool) {
        let left = spend(Some(MAX_ENTITY_SIZE), 8);
        let left = spend_text(left, &self.name);
        let left = spend_text(left, &self.email);
        let left = spend_text(left, &self.owner_principal);
        let left = spend_ids(left, &self.song_ids);
        let left = spend_ids(left, &self.license_ids);
        left.is_some()
    }

    fn is_tidy(&self) -> (ok: bool) {
        distinct(&self.song_ids) && distinct(&self.license_ids)
    }

    /// The fields in the order of their declaration.
    fn to_bytes(&self) -> (bytes: Vec<u8>)
        ensures
            bytes@ == owner_bytes(self@),
    {
        let mut out: Vec<u8> = Vec::new();
        put_u64(&mut out, self.id);
        put_text(&mut out, &self.name);
        put_text(&mut out, &self.email);
        put_text(&mut out, &self.owner_principal);
        put_ids(&mut out, &self.song_ids);
        put_ids(&mut out, &self.license_ids);
        proof {
            assert(out@ =~= owner_bytes(self@));
            lemma_owner_written(self@);
            lemma_owner_len(self@);
        }
        out
    }

    fn from_bytes(bytes: &Vec<u8>) -> (found: Option<Owner>) {
        assert(bytes@.skip(0) =~= bytes@);
        let at: usize = 0;
        let (id, at) = read_u64(bytes, at)?;
        let (name, at) = read_text(bytes, at)?;
        let (email, at) = read_text(bytes, at)?;
        let (owner_principal, at) = read_text(bytes, at)?;
        let (song_ids, at) = read_ids(bytes, at)?;
        let (license_ids, at) = read_ids(bytes, at)?;
        if at != bytes.len() {
            return None;
        }
        Some(Owner { id, name, email, owner_principal, song_ids, license_ids })
    }
}

/// The byte form of a license.
pub open spec fn license_bytes(e: LicenseData) -> Seq<u8> {
    u64_bytes(e.id)
        + u64_bytes(e.song_id)
        + u64_bytes(e.owner_id)
        + u64_bytes(e.licensee_id)
        + flag_bytes(e.approved)
        + u32_bytes(e.price)
        + text_bytes(e.start_date)
        + text_bytes(e.end_date)
}

/// The size of the byte form of a license.
pub open spec fn license_len(e: LicenseData) -> nat {
    37 + text_len(e.start_date) + text_len(e.end_date)
}

/// Whether the byte form of the license is within [`MAX_ENTITY_SIZE`].
pub open spec fn license_fits(e: LicenseData) -> bool {
    license_len(e) <= MAX_ENTITY_SIZE
}

/// The license that `b` is the byte form of, if it is one.
pub open spec fn parse_license(b: Seq<u8>) -> Option<LicenseData> {
    let id = parse_u64(b);
    let song_id = parse_u64(after(id));
    let owner_id = parse_u64(after(song_id));
    let licensee_id = parse_u64(after(owner_id));
    let approved = parse_flag(after(licensee_id));
    let price = parse_u32(after(approved));
    let start_date = parse_text(after(price));
    let end_date = parse_text(after(start_date));
    if id is Some
        && song_id is Some
        && owner_id is Some
        && licensee_id is Some
        && approved is Some
        && price is Some
        && start_date is Some
        && end_date is Some
        && after(end_date).len() == 0 {
        Some(
            LicenseData {
                id: id.unwrap().0,
                song_id: song_id.unwrap().0,
                owner_id: owner_id.unwrap().0,
                licensee_id: licensee_id.unwrap().0,
                approved: approved.unwrap().0,
                price: price.unwrap().0,
                start_date: start_date.unwrap().0,
                end_date: end_date.unwrap().0,
            },
        )
    } else {
        None
    }
}

/// The byte form of a license is as long as `license_len` says.
pub proof fn lemma_license_len(e: LicenseData)
    ensures
        license_bytes(e).len() == license_len(e),
{
    lemma_u64_len(e.id);
    lemma_u64_len(e.song_id);
    lemma_u64_len(e.owner_id);
    lemma_u64_len(e.licensee_id);
    lemma_u32_len(e.price);
    lemma_text_len(e.start_date);
    lemma_text_len(e.end_date);
}

/// Decoding inverts encoding.
pub proof fn lemma_license_written(e: LicenseData)
    requires
        license_fits(e),
    ensures
        parse_license(license_bytes(e)) == Some(e),
{
    let t8 = Seq::<u8>::empty();
    let t7 = text_bytes(e.end_date) + t8;
    let t6 = text_bytes(e.start_date) + t7;
    let t5 = u32_bytes(e.price) + t6;
    let t4 = flag_bytes(e.approved) + t5;
    let t3 = u64_bytes(e.licensee_id) + t4;
    let t2 = u64_bytes(e.owner_id) + t3;
    let t1 = u64_bytes(e.song_id) + t2;
    let t0 = u64_bytes(e.id) + t1;
    assert(license_bytes(e) =~= t0);
    lemma_parse_u64_written(e.id, t1);
    lemma_parse_u64_written(e.song_id, t2);
    lemma_parse_u64_written(e.owner_id, t3);
    lemma_parse_u64_written(e.licensee_id, t4);
    lemma_parse_flag_written(e.approved, t5);
    lemma_parse_u32_written(e.price, t6);
    lemma_parse_text_written(e.start_date, t7);
    lemma_parse_text_written(e.end_date, t8);
}

/// Bytes that decode are the encoding of what they decode to.
pub proof fn lemma_license_exact(b: Seq<u8>)
    requires
        parse_license(b) is Some,
    ensures
        license_bytes(parse_license(b).unwrap()) == b,
        b.len() == license_len(parse_license(b).unwrap()),
{
    let e = parse_license(b).unwrap();
    let b0 = b;
    let b1 = parse_u64(b0).unwrap().1;
    let b2 = parse_u64(b1).unwrap().1;
    let b3 = parse_u64(b2).unwrap().1;
    let b4 = parse_u64(b3).unwrap().1;
    let b5 = parse_flag(b4).unwrap().1;
    let b6 = parse_u32(b5).unwrap().1;
    let b7 = parse_text(b6).unwrap().1;
    let b8 = parse_text(b7).unwrap().1;
    let t8 = Seq::<u8>::empty();
    let t7 = text_bytes(e.end_date) + t8;
    let t6 = text_bytes(e.start_date) + t7;
    let t5 = u32_bytes(e.price) + t6;
    let t4 = flag_bytes(e.approved) + t5;
    let t3 = u64_bytes(e.licensee_id) + t4;
    let t2 = u64_bytes(e.owner_id) + t3;
    let t1 = u64_bytes(e.song_id) + t2;
    let t0 = u64_bytes(e.id) + t1;
    assert(b8 =~= t8);
    assert(b7 == t7) by {
        lemma_parse_text_exact(b7);
    }
    assert(b6 == t6) by {
        lemma_parse_text_exact(b6);
    }
    assert(b5 == t5) by {
        lemma_parse_u32_exact(b5);
    }
    assert(b4 == t4) by {
        lemma_parse_flag_exact(b4);
    }
    assert(b3 == t3) by {
        lemma_parse_u64_exact(b3);
    }
    assert(b2 == t2) by {
        lemma_parse_u64_exact(b2);
    }
    assert(b1 == t1) by {
        lemma_parse_u64_exact(b1);
    }
    assert(b0 == t0) by {
        lemma_parse_u64_exact(b0);
    }
    assert(license_bytes(e) =~= t0);
    lemma_license_len(e);
}

impl Record for License {
    open spec fn id_of(value: LicenseData) -> u64 {
        value.id
    }

    open spec fn decoded(bytes: Seq<u8>) -> Option<LicenseData> {
        parse_license(bytes)
    }

    open spec fn bounded(value: LicenseData) -> bool {
        license_fits(value)
    }

    open spec fn tidy(value: LicenseData) -> bool {
        true
    }

    proof fn lemma_bounded(bytes: Seq<u8>) {
        lemma_license_exact(bytes);
    }

    fn id(&self) -> (id: u64) {
        self.id
    }

    fn fits(&self) -> (ok: bool) {
        let left = spend(Some(MAX_ENTITY_SIZE), 37);
        let left = spend_text(left, &self.start_date);
        let left = spend_text(left, &self.end_date);
        left.is_some()
    }

    fn is_tidy(&self) -> (ok: bool) {
        true
    }

    /// The fields in the order of their declaration.
    fn to_bytes(&self) -> (bytes: Vec<u8>)
        ensures
            bytes@ == license_bytes(self@),
    {
        let mut out: Vec<u8> = Vec::new();
        put_u64(&mut out, self.id);
        put_u64(&mut out, self.song_id);
        put_u64(&mut out, self.owner_id);
        put_u64(&mut out, self.licensee_id);
        put_flag(&mut out, self.approved);
        put_u32(&mut out, self.price);
        put_text(&mut out, &self.start_date);
        put_text(&mut out, &self.end_date);
        proof {
            assert(out@ =~= license_bytes(self@));
            lemma_license_written(self@);
            lemma_license_len(self@);
        }
        out
    }

    fn from_bytes(bytes: &Vec<u8>) -> (found: Option<License>) {
        assert(bytes@.skip(0) =~= bytes@);
        let at: usize = 0;
        let (id, at) = read_u64(bytes, at)?;
        let (song_id, at) = read_u64(bytes, at)?;
        let (owner_id, at) = read_u64(bytes, at)?;
        let (licensee_id, at) = read_u64(bytes, at)?;
        let (approved, at) = read_flag(bytes, at)?;
        let (price, at) = read_u32(bytes, at)?;
        let (start_date, at) = read_text(bytes, at)?;
        let (end_date, at) = read_text(bytes, at)?;
        if at != bytes.len() {
            return None;
        }
        Some(License { id, song_id, owner_id, licensee_id, approved, price, start_date, end_date })
    }
}

/// The byte form of a licensee.
pub open spec fn licensee_bytes(e: LicenseeData) -> Seq<u8> {
    u64_bytes(e.id)
        + text_bytes(e.name)
        + text_bytes(e.email)
        + ids_bytes(e.licenses)
}

/// The size of the byte form of a licensee.
pub open spec fn licensee_len(e: LicenseeData) -> nat {
    8 + text_len(e.name) + text_len(e.email) + ids_len(e.licenses)
}

/// Whether the byte form of the licensee is within [`MAX_ENTITY_SIZE`].
pub open spec fn licensee_fits(e: LicenseeData) -> bool {
    licensee_len(e) <= MAX_ENTITY_SIZE
}

/// The licensee that `b` is the byte form of, if it is one.
pub open spec fn parse_licensee(b: Seq<u8>) -> Option<LicenseeData> {
    let id = parse_u64(b);
    let name = parse_text(after(id));
    let email = parse_text(after(name));
    let licenses = parse_ids(after(email));
    if id is Some
        && name is Some
        && email is Some
        && licenses is Some
        && after(licenses).len() == 0 {
        Some(
            LicenseeData {
                id: id.unwrap().0,
                name: name.unwrap().0,
                email: email.unwrap().0,
                licenses: licenses.unwrap().0,
            },
        )
    } else {
        None
    }
}

/// The byte form of a licensee is as long as `licensee_len` says.
pub proof fn lemma_licensee_len(e: LicenseeData)
    ensures
        licensee_bytes(e).len() == licensee_len(e),
{
    lemma_u64_len(e.id);
    lemma_text_len(e.name);
    lemma_text_len(e.email);
    lemma_ids_len(e.licenses);
}

/// Decoding inverts encoding.
pub proof fn lemma_licensee_written(e: LicenseeData)
    requires
        licensee_fits(e),
    ensures
        parse_licensee(licensee_bytes(e)) == Some(e),
{
    let t4 = Seq::<u8>::empty();
    let t3 = ids_bytes(e.licenses) + t4;
    let t2 = text_bytes(e.email) + t3;
    let t1 = text_bytes(e.name) + t2;
    let t0 = u64_bytes(e.id) + t1;
    assert(licensee_bytes(e) =~= t0);
    lemma_parse_u64_written(e.id, t1);
    lemma_parse_text_written(e.name, t2);
    lemma_parse_text_written(e.email, t3);
    lemma_parse_ids_written(e.licenses, t4);
}

/// Bytes that decode are the encoding of what they decode to.
pub proof fn lemma_licensee_exact(b: Seq<u8>)
    requires
        parse_licensee(b) is Some,
    ensures
        licensee_bytes(parse_licensee(b).unwrap()) == b,
        b.len() == licensee_len(parse_licensee(b).unwrap()),
{
    let e = parse_licensee(b).unwrap();
    let b0 = b;
    let b1 = parse_u64(b0).unwrap().1;
    let b2 = parse_text(b1).unwrap().1;
    let b3 = parse_text(b2).unwrap().1;
    let b4 = parse_ids(b3).unwrap().1;
    let t4 = Seq::<u8>::empty();
    let t3 = ids_bytes(e.licenses) + t4;
    let t2 = text_bytes(e.email) + t3;
    let t1 = text_bytes(e.name) + t2;
    let t0 = u64_bytes(e.id) + t1;
    assert(b4 =~= t4);
    assert(b3 == t3) by {
        lemma_parse_ids_exact(b3);
    }
    assert(b2 == t2) by {
        lemma_parse_text_exact(b2);
    }
    assert(b1 == t1) by {
        lemma_parse_text_exact(b1);
    }
    assert(b0 == t0) by {
        lemma_parse_u64_exact(b0);
    }
    assert(licensee_bytes(e) =~= t0);
    lemma_licensee_len(e);
}

impl Record for Licensee {
    open spec fn id_of(value: LicenseeData) -> u64 {
        value.id
    }

    open spec fn decoded(bytes: Seq<u8>) -> Option<LicenseeData> {
        parse_licensee(bytes)
    }

    open spec fn bounded(value: LicenseeData) -> bool {
        licensee_fits(value)
    }

    open spec fn tidy(value: LicenseeData) -> bool {
        value.licenses.no_duplicates()
    }

    proof fn lemma_bounded(bytes: Seq<u8>) {
        lemma_licensee_exact(bytes);
    }

    fn id(&self) -> (id: u64) {
        self.id
    }

    fn fits(&self) -> (ok: bool) {
        let left = spend(Some(MAX_ENTITY_SIZE), 8);
        let left = spend_text(left, &self.name);
        let left = spend_text(left, &self.email);
        let left = spend_ids(left, &self.licenses);
        left.is_some()
    }

    fn is_tidy(&self) -> (ok: bool) {
        distinct(&self.licenses)
    }

    /// The fields in the order of their declaration.
    fn to_bytes(&self) -> (bytes: Vec<u8>)
        ensures
            bytes@ == licensee_bytes(self@),
    {
        let mut out: Vec<u8> = Vec::new();
        put_u64(&mut out, self.id);
        put_text(&mut out, &self.name);
        put_text(&mut out, &self.email);
        put_ids(&mut out, &self.licenses);
        proof {
            assert(out@ =~= licensee_bytes(self@));
            lemma_licensee_written(self@);
            lemma_licensee_len(self@);
        }
        out
    }

    fn from_bytes(bytes: &Vec<u8>) -> (found: Option<Licensee>) {
        assert(bytes@.skip(0) =~= bytes@);
        let at: usize = 0;
        let (id, at) = read_u64(bytes, at)?;
        let (name, at) = read_text(bytes, at)?;
        let (email, at) = read_text(bytes, at)?;
        let (licenses, at) = read_ids(bytes, at)?;
        if at != bytes.len() {
            return None;
        }
        Some(Licensee { id, name, email, licenses })
    }
}

impl SongPayload {
    /// The song that this payload describes, under `id`.
    pub open spec fn as_song(self, id: u64) -> SongData {
        SongData {
            id,
            title: self.title@,
            artist: self.artist@,
            owner_id: self.owner_id,
            year: self.year,
            genre: self.genre@,
            price: self.price,
        }
    }

    /// Whether the song that this payload describes is within the bound.
    pub open spec fn within_bound(self) -> bool {
        song_fits(self.as_song(0))
    }

    /// Whether the song that this payload describes is within the bound.
    pub fn fits(&self) -> (ok: bool)
        ensures
            ok == self.within_bound(),
    {
        let left = spend(Some(MAX_ENTITY_SIZE), 24);
        let left = spend_text(left, &self.title);
        let left = spend_text(left, &self.artist);
        let left = spend_text(left, &self.genre);
        left.is_some()
    }
}

impl UpdateSongPayload {
    /// `song` with the title, artist, year, genre and price of this payload.
    pub open spec fn applied_to(self, song: SongData) -> SongData {
        SongData {
            title: self.title@,
            artist: self.artist@,
            year: self.year,
            genre: self.genre@,
            price: self.price,
            ..song
        }
    }

    /// Whether a song with the texts of this payload is within the bound.
    pub open spec fn within_bound(self) -> bool {
        24 + text_len(self.title@) + text_len(self.artist@) + text_len(self.genre@)
            <= MAX_ENTITY_SIZE
    }

    /// Whether a song with the texts of this payload is within the bound.
    pub fn fits(&self) -> (ok: bool)
        ensures
            ok == self.within_bound(),
    {
        let left = spend(Some(MAX_ENTITY_SIZE), 24);
        let left = spend_text(left, &self.title);
        let left = spend_text(left, &self.artist);
        let left = spend_text(left, &self.genre);
        left.is_some()
    }
}

impl OwnerPayload {
    /// The owner that this payload describes, under `id`, with `caller` as its
    /// credential and with empty lists.
    pub open spec fn as_owner(self, id: u64, caller: Seq<char>) -> OwnerData {
        OwnerData {
            id,
            name: self.name@,
            email: self.email@,
            owner_principal: caller,
            song_ids: Seq::empty(),
            license_ids: Seq::empty(),
        }
    }

    /// Whether the owner that this payload describes is within the bound.
    pub open spec fn within_bound(self, caller: Seq<char>) -> bool {
        owner_fits(self.as_owner(0, caller))
    }

    /// Whether the owner that this payload describes is within the bound.
    pub fn fits(&self, caller: &str) -> (ok: bool)
        ensures
            ok == self.within_bound(caller@),
    {
        let left = spend(Some(MAX_ENTITY_SIZE), 16);
        let left = spend_text(left, &self.name);
        let left = spend_text(left, &self.email);
        let left = spend_str(left, caller);
        left.is_some()
    }
}

impl LicenseePayload {
    /// The licensee that this payload describes, under `id`, with an empty
    /// list.
    pub open spec fn as_licensee(self, id: u64) -> LicenseeData {
        LicenseeData { id, name: self.name@, email: self.email@, licenses: Seq::empty() }
    }

    /// Whether the licensee that this payload describes is within the bound.
    pub open spec fn within_bound(self) -> bool {
        licensee_fits(self.as_licensee(0))
    }

    /// Whether the licensee that this payload describes is within the bound.
    pub fn fits(&self) -> (ok: bool)
        ensures
            ok == self.within_bound(),
    {
        let left = spend(Some(MAX_ENTITY_SIZE), 12);
        let left = spend_text(left, &self.name);
        let left = spend_text(left, &self.email);
        left.is_some()
    }
}

impl LicensePayload {
    /// The request that this payload describes, under `id`, for a song of
    /// `owner_id`: not approved, at price 0.
    pub open spec fn as_license(self, id: u64, owner_id: u64) -> LicenseData {
        LicenseData {
            id,
            song_id: self.song_id,
            owner_id,
            licensee_id: self.licensee_id,
            approved: false,
            price: 0,
            start_date: self.start_date@,
            end_date: self.end_date@,
        }
    }

    /// Whether the request that this payload describes is within the bound.
    pub open spec fn within_bound(self) -> bool {
        license_fits(self.as_license(0, 0))
    }

    /// Whether the request that this payload describes is within the bound.
    pub fn fits(&self) -> (ok: bool)
        ensures
            ok == self.within_bound(),
    {
        let left = spend(Some(MAX_ENTITY_SIZE), 37);
        let left = spend_text(left, &self.start_date);
        let left = spend_text(left, &self.end_date);
        left.is_some()
    }
}

} // verus!
