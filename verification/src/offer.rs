//! The offer: a posting of help that is offered or needed, with the types it
//! is made of.

use vstd::prelude::*;
use rand::distributions::Alphanumeric;
use rand::Rng;
use crate::util::{Location, LocationPath, LocationPathView, LocationView};

verus! {

/// After so many hours without a write the backend drops an offer.
pub const OFFER_TTL_HOURS: u64 = 48;

/// The lifetime of an offer in seconds, counted from its last write.
pub const OFFER_TTL_SECONDS: u64 = 60 * 60 * OFFER_TTL_HOURS;

/// What stands in place of the password of an offer that is shown.
pub open spec fn masked_password() -> Seq<char> {
    seq!['*', '*', '*', '*']
}

/// The characters that an id is drawn from: the ASCII letters and digits.
pub open spec fn is_alphanumeric(c: char) -> bool {
    ('0' <= c && c <= '9') || ('a' <= c && c <= 'z') || ('A' <= c && c <= 'Z')
}

/// An id: nothing but ASCII letters and digits.
pub open spec fn is_id(id: Seq<char>) -> bool {
    forall|i: int| 0 <= i < id.len() ==> is_alphanumeric(#[trigger] id[i])
}

/// `Rng::sample` of rand, with the distribution `Alphanumeric`, on the
/// generator that `thread_rng` hands out. Which byte comes is left to chance;
/// it is always one of the 62 ASCII letters and digits. (Where the system
/// gives a thread no randomness to seed its generator with, `thread_rng`
/// panics.)
#[verifier::external_body]
fn sample_alphanumeric() -> (byte: u8)
    ensures
        is_alphanumeric(byte as char),
{
    rand::thread_rng().sample(Alphanumeric)
}

/// Draws an id of `len` characters at random, each an ASCII letter or digit.
/// Nothing keeps two draws apart: with few characters the same id will come
/// again.
pub fn rnd_id(len: usize) -> (id: String)
    ensures
        id@.len() == len,
        is_id(id@),
{
    let mut id = String::new();
    let mut i: usize = 0;
    while i < len
        invariant
            i <= len,
            id@.len() == i,
            is_id(id@),
        decreases len - i,
    {
        let byte = sample_alphanumeric();
        id.push(byte as char);
        i = i + 1;
    }
    id
}

#[derive(Debug, Clone, Copy, PartialEq, Eq)]
pub enum TransportVehicle {
    /// Most common cars: SUVs, sedans, taxis
    PersonalMax5Seats,
    /// Road vehicles for many passengers
    Bus,
    Other,
}

#[derive(Debug, Clone, PartialEq, Eq)]
pub struct TransportData {
    pub from_to: LocationPath,
    pub vehicle: TransportVehicle,
}

#[derive(Debug, Clone, Copy, PartialEq, Eq)]
pub enum HousingType {
    /// Organised mass accommodation
    Mass,
    /// A room or a flat of one's own that is shared
    Shared,
    /// Hotels, motels, guesthouses
    Hotel,
}

#[derive(Debug, Clone, PartialEq, Eq)]
pub struct AccommodationData {
    pub housing_type: HousingType,
    /// Transport to the accommodation, where it is offered too
    pub offers_transport: Option<TransportData>,
    pub allows_pets: bool,
    /// Food, water, a working toilet
    pub provides_necessities: bool,
}

#[derive(Debug, Clone, PartialEq, Eq)]
pub enum OfferType {
    /// Transport of people is offered
    OfferTransport(TransportData),
    /// Accommodation is offered
    OfferAccommodation(AccommodationData),
    /// Other help is offered, the transport of goods included
    OfferOther,
    /// Transport of people is needed
    NeedTransport(LocationPath),
    NeedAccommodation,
    NeedOther,
    /// Help is needed at once
    NeedEmergency,
}

#[derive(Debug, Clone, PartialEq, Eq)]
pub struct PersonalData {
    pub first_name: String,
    pub last_name: String,
    pub age: u8,
    pub gender: String,
    /// A photo of the person, base64-encoded
    pub photo_b64_img: String,
}

#[derive(Debug, Clone, PartialEq, Eq)]
pub struct Offer {
    pub otype: OfferType,
    /// The name that the submitter shows
    pub name: String,
    pub personal: Option<PersonalData>,
    /// Phone number, e-mail, or whatever else reaches the submitter
    pub contact: String,
    pub title: String,
    /// Where the accommodation is, or where the offer is based
    pub location: Location,
    pub description: String,
    pub available_spaces: u8,
    /// Whether the submitter has translated the offer
    pub translated: bool,
    /// Drawn at random when the offer is taken in
    pub id: String,
    /// The shared secret with which the offer can later be changed
    pub password: String,
    /// Whether the offer may be shown
    pub approved: bool,
    /// When the offer was taken in, in seconds since the Unix epoch
    pub creation_epoch: u64,
    /// When the offer was last written
    pub update_epoch: u64,
}

/// The data of a transport, as mathematics sees it.
pub ghost struct TransportDataView {
    pub from_to: LocationPathView,
    pub vehicle: TransportVehicle,
}

impl View for TransportData {
    type V = TransportDataView;

    open spec fn view(&self) -> TransportDataView {
        TransportDataView { from_to: self.from_to@, vehicle: self.vehicle }
    }
}

/// The data of an accommodation, as mathematics sees it.
pub ghost struct AccommodationDataView {
    pub housing_type: HousingType,
    pub offers_transport: Option<TransportDataView>,
    pub allows_pets: bool,
    pub provides_necessities: bool,
}

impl View for AccommodationData {
    type V = AccommodationDataView;

    open spec fn view(&self) -> AccommodationDataView {
        AccommodationDataView {
            housing_type: self.housing_type,
            offers_transport: match self.offers_transport {
                Some(transport) => Some(transport@),
                None => None,
            },
            allows_pets: self.allows_pets,
            provides_necessities: self.provides_necessities,
        }
    }
}

/// The kind of an offer, as mathematics sees it.
pub ghost enum OfferTypeView {
    OfferTransport(TransportDataView),
    OfferAccommodation(AccommodationDataView),
    OfferOther,
    NeedTransport(LocationPathView),
    NeedAccommodation,
    NeedOther,
    NeedEmergency,
}

impl View for OfferType {
    type V = OfferTypeView;

    open spec fn view(&self) -> OfferTypeView {
        match self {
            OfferType::OfferTransport(transport) => OfferTypeView::OfferTransport(transport@),
            OfferType::OfferAccommodation(accommodation) => OfferTypeView::OfferAccommodation(
                accommodation@,
            ),
            OfferType::OfferOther => OfferTypeView::OfferOther,
            OfferType::NeedTransport(path) => OfferTypeView::NeedTransport(path@),
            OfferType::NeedAccommodation => OfferTypeView::NeedAccommodation,
            OfferType::NeedOther => OfferTypeView::NeedOther,
            OfferType::NeedEmergency => OfferTypeView::NeedEmergency,
        }
    }
}

/// Personal data, as mathematics sees it.
pub ghost struct PersonalDataView {
    pub first_name: Seq<char>,
    pub last_name: Seq<char>,
    pub age: u8,
    pub gender: Seq<char>,
    pub photo_b64_img: Seq<char>,
}

impl View for PersonalData {
    type V = PersonalDataView;

    open spec fn view(&self) -> PersonalDataView {
        PersonalDataView {
            first_name: self.first_name@,
            last_name: self.last_name@,
            age: self.age,
            gender: self.gender@,
            photo_b64_img: self.photo_b64_img@,
        }
    }
}

impl PersonalDataView {
    /// The bounds that personal data keeps: of age, names of 1 to 64
    /// characters, a gender of 1 to 32, a photo of 64 to 999,999.
    pub open spec fn within_bounds(self) -> bool {
        &&& self.age >= 18
        &&& 1 <= self.first_name.len() <= 64
        &&& 1 <= self.last_name.len() <= 64
        &&& 1 <= self.gender.len() <= 32
        &&& 64 <= self.photo_b64_img.len() < 1_000_000
    }
}

/// The personal data of a submitter, where it is given, as mathematics sees
/// it.
pub open spec fn personal_view(personal: Option<PersonalData>) -> Option<PersonalDataView> {
    match personal {
        Some(personal) => Some(personal@),
        None => None,
    }
}

/// An offer, as mathematics sees it.
pub ghost struct OfferView {
    pub otype: OfferTypeView,
    pub name: Seq<char>,
    pub personal: Option<PersonalDataView>,
    pub contact: Seq<char>,
    pub title: Seq<char>,
    pub location: LocationView,
    pub description: Seq<char>,
    pub available_spaces: u8,
    pub translated: bool,
    pub id: Seq<char>,
    pub password: Seq<char>,
    pub approved: bool,
    pub creation_epoch: u64,
    pub update_epoch: u64,
}

impl View for Offer {
    type V = OfferView;

    open spec fn view(&self) -> OfferView {
        OfferView {
            otype: self.otype@,
            name: self.name@,
            personal: personal_view(self.personal),
            contact: self.contact@,
            title: self.title@,
            location: self.location@,
            description: self.description@,
            available_spaces: self.available_spaces,
            translated: self.translated,
            id: self.id@,
            password: self.password@,
            approved: self.approved,
            creation_epoch: self.creation_epoch,
            update_epoch: self.update_epoch,
        }
    }
}

impl OfferView {
    /// The bounds that a stored offer keeps, each of them tried when the
    /// offer was taken in and none of them tried again after that.
    pub open spec fn within_bounds(self) -> bool {
        &&& 2 <= self.name.len() <= 64
        &&& self.personal matches Some(personal) ==> personal.within_bounds()
        &&& self.contact.len() <= 128
        &&& self.location.within_bounds()
        &&& 8 <= self.title.len() <= 512
        &&& 32 <= self.description.len() <= 2056
        &&& self.translated
        &&& 4 <= self.password.len() <= 32
    }

    /// The offer as it may be shown: as it is, but for the password, in
    /// whose place stand four asterisks.
    pub open spec fn redacted(self) -> OfferView {
        OfferView { password: masked_password(), ..self }
    }
}

impl Offer {
    /// Masks the password of an offer that is about to be shown.
    pub fn redacted(self) -> (shown: Offer)
        ensures
            shown@ == self@.redacted(),
    {
        let password = "****".to_owned();
        proof {
            reveal_strlit("****");
            assert(password@ =~= masked_password());
        }
        Offer { password, ..self }
    }
}

} // verus!
