//! The entities of the catalog, the payloads of its operations and its errors.

use vstd::prelude::*;
use vstd::string::*;
use crate::text::{decimal, decimal_text};

verus! {

/// A song that can be licensed.
#[derive(Clone, Debug, PartialEq, Eq, Default)]
pub struct Song {
    pub id: u64,
    pub title: String,
    pub artist: String,
    pub owner_id: u64,
    pub year: u32,
    pub genre: String,
    pub price: u32,
}

/// The mathematical value of a [`Song`].
pub struct SongData {
    pub id: u64,
    pub title: Seq<char>,
    pub artist: Seq<char>,
    pub owner_id: u64,
    pub year: u32,
    pub genre: Seq<char>,
    pub price: u32,
}

impl View for Song {
    type V = SongData;

    open spec fn view(&self) -> SongData {
        SongData {
            id: self.id,
            title: self.title@,
            artist: self.artist@,
            owner_id: self.owner_id,
            year: self.year,
            genre: self.genre@,
            price: self.price,
        }
    }
}

/// The holder of songs. `owner_principal` is the credential of the caller that
/// created the owner; it never changes.
#[derive(Clone, Debug, PartialEq, Eq, Default)]
pub struct Owner {
    pub id: u64,
    pub name: String,
    pub email: String,
    pub owner_principal: String,
    pub song_ids: Vec<u64>,
    pub license_ids: Vec<u64>,
}

/// The mathematical value of an [`Owner`].
pub struct OwnerData {
    pub id: u64,
    pub name: Seq<char>,
    pub email: Seq<char>,
    pub owner_principal: Seq<char>,
    pub song_ids: Seq<u64>,
    pub license_ids: Seq<u64>,
}

impl View for Owner {
    type V = OwnerData;

    open spec fn view(&self) -> OwnerData {
        OwnerData {
            id: self.id,
            name: self.name@,
            email: self.email@,
            owner_principal: self.owner_principal@,
            song_ids: self.song_ids@,
            license_ids: self.license_ids@,
        }
    }
}

/// A licensee's request for a song, approved or not.
#[derive(Debug, PartialEq, Eq, Default)]
pub struct License {
    pub id: u64,
    pub song_id: u64,
    pub owner_id: u64,
    pub licensee_id: u64,
    pub approved: bool,
    pub price: u32,
    pub start_date: String,
    pub end_date: String,
}

/// The mathematical value of a [`License`].
pub struct LicenseData {
    pub id: u64,
    pub song_id: u64,
    pub owner_id: u64,
    pub licensee_id: u64,
    pub approved: bool,
    pub price: u32,
    pub start_date: Seq<char>,
    pub end_date: Seq<char>,
}

impl View for License {
    type V = LicenseData;

    open spec fn view(&self) -> LicenseData {
        LicenseData {
            id: self.id,
            song_id: self.song_id,
            owner_id: self.owner_id,
            licensee_id: self.licensee_id,
            approved: self.approved,
            price: self.price,
            start_date: self.start_date@,
            end_date: self.end_date@,
        }
    }
}

impl Clone for License {
    fn clone(&self) -> (copy: License)
        ensures
            copy == *self,
    {
        License {
            id: self.id,
            song_id: self.song_id,
            owner_id: self.owner_id,
            licensee_id: self.licensee_id,
            approved: self.approved,
            price: self.price,
            start_date: self.start_date.clone(),
            end_date: self.end_date.clone(),
        }
    }
}

/// A party that asks for licenses.
#[derive(Clone, Debug, PartialEq, Eq, Default)]
pub struct Licensee {
    pub id: u64,
    pub name: String,
    pub email: String,
    pub licenses: Vec<u64>,
}

/// The mathematical value of a [`Licensee`].
pub struct LicenseeData {
    pub id: u64,
    pub name: Seq<char>,
    pub email: Seq<char>,
    pub licenses: Seq<u64>,
}

impl View for Licensee {
    type V = LicenseeData;

    open spec fn view(&self) -> LicenseeData {
        LicenseeData { id: self.id, name: self.name@, email: self.email@, licenses: self.licenses@ }
    }
}

/// What a query for a song's owner hands out: the owner without its id lists.
#[derive(Clone, Debug, PartialEq, Eq)]
pub struct ReturnOwner {
    pub id: u64,
    pub owner_principal: String,
    pub name: String,
    pub email: String,
}

/// The mathematical value of a [`ReturnOwner`].
pub struct ReturnOwnerData {
    pub id: u64,
    pub owner_principal: Seq<char>,
    pub name: Seq<char>,
    pub email: Seq<char>,
}

impl View for ReturnOwner {
    type V = ReturnOwnerData;

    open spec fn view(&self) -> ReturnOwnerData {
        ReturnOwnerData {
            id: self.id,
            owner_principal: self.owner_principal@,
            name: self.name@,
            email: self.email@,
        }
    }
}

/// What `create_song` is asked to register.
#[derive(Clone, Debug, PartialEq, Eq)]
pub struct SongPayload {
    pub title: String,
    pub artist: String,
    pub owner_id: u64,
    pub year: u32,
    pub genre: String,
    pub price: u32,
}

/// What `create_owner` is asked to register.
#[derive(Clone, Debug, PartialEq, Eq)]
pub struct OwnerPayload {
    pub name: String,
    pub email: String,
}

/// What `create_license_request` is asked to register.
#[derive(Clone, Debug, PartialEq, Eq)]
pub struct LicensePayload {
    pub song_id: u64,
    pub licensee_id: u64,
    pub start_date: String,
    pub end_date: String,
}

/// What `create_licensee` is asked to register.
#[derive(Clone, Debug, PartialEq, Eq)]
pub struct LicenseePayload {
    pub name: String,
    pub email: String,
}

/// The license that `revoke_license` is asked to revoke.
#[derive(Clone, Debug, PartialEq, Eq)]
pub struct ProtectedPayload {
    pub license_id: u64,
}

/// The license that `approve_license` is asked to approve, and at what cost.
#[derive(Clone, Debug, PartialEq, Eq)]
pub struct Approvepayload {
    pub license_id: u64,
    pub cost: u32,
}

/// The song that `update_song` is asked to change, and what it is to hold.
#[derive(Clone, Debug, PartialEq, Eq)]
pub struct UpdateSongPayload {
    pub id: u64,
    pub title: String,
    pub artist: String,
    pub year: u32,
    pub genre: String,
    pub price: u32,
}

/// Why an operation failed, without the message.
#[derive(Clone, Copy, Debug, PartialEq, Eq, Structural)]
pub enum ErrorKind {
    /// A referenced id is absent.
    NotFound,
    /// The request is well formed but cannot be carried out.
    InvalidPayload,
    /// The license is approved already.
    AlreadyApproved,
    /// The caller is not the registered owner.
    Unauthorized,
}

/// A failed operation: one kind, and a message for a human reader.
#[derive(Clone, Debug, PartialEq, Eq)]
pub enum Error {
    NotFound { msg: String },
    InvalidPayload { msg: String },
    AlreadyApproved { msg: String },
    Unauthorized { msg: String },
}

impl Error {
    /// The kind of this error.
    pub open spec fn spec_kind(&self) -> ErrorKind {
        match self {
            Error::NotFound { .. } => ErrorKind::NotFound,
            Error::InvalidPayload { .. } => ErrorKind::InvalidPayload,
            Error::AlreadyApproved { .. } => ErrorKind::AlreadyApproved,
            Error::Unauthorized { .. } => ErrorKind::Unauthorized,
        }
    }

    /// The kind of this error.
    #[verifier::when_used_as_spec(spec_kind)]
    pub fn kind(&self) -> (k: ErrorKind)
        ensures
            k == self.spec_kind(),
    {
        match self {
            Error::NotFound { .. } => ErrorKind::NotFound,
            Error::InvalidPayload { .. } => ErrorKind::InvalidPayload,
            Error::AlreadyApproved { .. } => ErrorKind::AlreadyApproved,
            Error::Unauthorized { .. } => ErrorKind::Unauthorized,
        }
    }
}

/// The text `before`, the id in decimal form, `after`.
pub(crate) fn id_message(before: &str, id: u64, after: &str) -> (text: String)
    ensures
        text@ == id_text(before@, id, after@),
{
    let mut text = String::from_str(before);
    text.append(decimal_text(id).as_str());
    text.append(after);
    text
}

/// `NotFound`, with the message that no `what` has this id.
pub(crate) fn not_found(what: &str, id: u64) -> (e: Error)
    ensures
        e.kind() == ErrorKind::NotFound,
        e.message() == what@ + id_text(" id:"@, id, " could not be found"@),
{
    let mut msg = String::from_str(what);
    msg.append(id_message(" id:", id, " could not be found").as_str());
    Error::NotFound { msg }
}

/// `NotFound`, with the message that the licensee is missing.
pub(crate) fn no_licensee(id: u64) -> (e: Error)
    ensures
        e.kind() == ErrorKind::NotFound,
        e.message() == id_text("Licensee with id="@, id, " does not exist."@),
{
    Error::NotFound { msg: id_message("Licensee with id=", id, " does not exist.") }
}

/// The text that names a `what`, then what happened to it, then a `holder`.
fn pair_message(what: &str, id: u64, event: &str, holder: &str, holder_id: u64) -> (text: String)
    ensures
        text@ == pair_text(what@, id, event@, holder@, holder_id),
{
    let mut text = String::from_str(what);
    text.append(id_message(" id:", id, event).as_str());
    text.append(holder);
    text.append(id_message(" id:", holder_id, "").as_str());
    proof {
        reveal_strlit("");
        assert(text@ =~= pair_text(what@, id, event@, holder@, holder_id));
    }
    text
}

/// `NotFound`, with the message that the `holder` does not list the `what`.
pub(crate) fn not_listed(what: &str, id: u64, holder: &str, holder_id: u64) -> (e: Error)
    ensures
        e.kind() == ErrorKind::NotFound,
        e.message() == pair_text(what@, id, " could not be found in "@, holder@, holder_id),
{
    Error::NotFound { msg: pair_message(what, id, " could not be found in ", holder, holder_id) }
}

/// `InvalidPayload`, with the message that the `holder` has no room for the
/// `what`.
pub(crate) fn not_added(what: &str, id: u64, holder: &str, holder_id: u64) -> (e: Error)
    ensures
        e.kind() == ErrorKind::InvalidPayload,
        e.message() == pair_text(what@, id, " could not be added to "@, holder@, holder_id),
{
    Error::InvalidPayload {
        msg: pair_message(what, id, " could not be added to ", holder, holder_id),
    }
}

impl Error {
    /// The message of this error.
    pub open spec fn message(&self) -> Seq<char> {
        match self {
            Error::NotFound { msg } => msg@,
            Error::InvalidPayload { msg } => msg@,
            Error::AlreadyApproved { msg } => msg@,
            Error::Unauthorized { msg } => msg@,
        }
    }
}

/// The text `before`, the id in decimal form, `after`.
pub open spec fn id_text(before: Seq<char>, id: u64, after: Seq<char>) -> Seq<char> {
    before + decimal(id as nat) + after
}

/// The text that names a `what` by its id, then what happened to it, then a
/// `holder` by its id: "`what` id:1`event``holder` id:2".
pub open spec fn pair_text(
    what: Seq<char>,
    id: u64,
    event: Seq<char>,
    holder: Seq<char>,
    holder_id: u64,
) -> Seq<char> {
    what + id_text(" id:"@, id, event) + holder + id_text(" id:"@, holder_id, Seq::empty())
}

} // verus!
