//! Intake: the rules that a submitted offer has to keep before it is stored,
//! and the requests as they come in.
//!
//! The rules are tried in a fixed order and the first that is broken is the
//! one reported. The rules count lengths in characters.

use vstd::prelude::*;
use vstd::string::*;
use crate::offer::{
    is_id, personal_view, rnd_id, Offer, OfferType, OfferTypeView, OfferView, PersonalData,
    PersonalDataView,
};
use crate::util::{Location, LocationView};

verus! {

/// So many characters has the id that an accepted offer is given.
pub const ID_LENGTH: usize = 4;

/// A listing shows at most so many keys.
pub const LISTING_LIMIT: usize = 1024;

/// A submitted offer, as it comes in.
#[derive(Debug, Clone, PartialEq, Eq)]
pub struct OfferRequest {
    pub otype: OfferType,
    pub name: String,
    pub personal: Option<PersonalData>,
    pub contact: String,
    pub location: Location,
    pub title: String,
    pub description: String,
    pub available_spaces: u8,
    pub translated: bool,
    pub accepted_terms: bool,
    pub password: String,
    pub captcha: String,
}

/// A submitted offer, as mathematics sees it.
pub ghost struct OfferRequestView {
    pub otype: OfferTypeView,
    pub name: Seq<char>,
    pub personal: Option<PersonalDataView>,
    pub contact: Seq<char>,
    pub location: LocationView,
    pub title: Seq<char>,
    pub description: Seq<char>,
    pub available_spaces: u8,
    pub translated: bool,
    pub accepted_terms: bool,
    pub password: Seq<char>,
    pub captcha: Seq<char>,
}

impl View for OfferRequest {
    type V = OfferRequestView;

    open spec fn view(&self) -> OfferRequestView {
        OfferRequestView {
            otype: self.otype@,
            name: self.name@,
            personal: personal_view(self.personal),
            contact: self.contact@,
            location: self.location@,
            title: self.title@,
            description: self.description@,
            available_spaces: self.available_spaces,
            translated: self.translated,
            accepted_terms: self.accepted_terms,
            password: self.password@,
            captcha: self.captcha@,
        }
    }
}

/// An offer that comes in whole.
#[derive(Debug, Clone, PartialEq, Eq)]
pub struct NewOfferRequest {
    pub offer: Offer,
}

/// An offer that comes in whole, as mathematics sees it.
pub ghost struct NewOfferRequestView {
    pub offer: OfferView,
}

impl View for NewOfferRequest {
    type V = NewOfferRequestView;

    open spec fn view(&self) -> NewOfferRequestView {
        NewOfferRequestView { offer: self.offer@ }
    }
}

/// A request for one stored offer, by the key under which it was stored.
#[derive(Debug, Clone, Copy, PartialEq, Eq)]
pub struct GetRequest<'r> {
    pub id: &'r str,
}

/// A request for one stored offer, as mathematics sees it.
pub ghost struct GetRequestView {
    pub id: Seq<char>,
}

impl<'r> View for GetRequest<'r> {
    type V = GetRequestView;

    open spec fn view(&self) -> GetRequestView {
        GetRequestView { id: self.id@ }
    }
}

/// Why a submitted offer was turned down: the rule that it broke.
#[derive(Debug, Clone, Copy, PartialEq, Eq, Structural)]
pub enum RejectionReason {
    /// The name has under 2 or over 64 characters.
    Name,
    /// Personal data is given and the age is under 18.
    Age,
    /// Personal data is given and the first or the last name has no
    /// character or over 64.
    PersonalName,
    /// Personal data is given and the gender has no character or over 32.
    Gender,
    /// Personal data is given and the photo has under 64 characters or
    /// 1,000,000 and more.
    Photo,
    /// The contact has over 128 characters.
    Contact,
    /// The street address has no character or over 128.
    StreetAddress,
    /// The city has no character or over 128.
    City,
    /// The additional information on the location has no character or over
    /// 256.
    AdditionalInfo,
    /// The title has under 8 or over 512 characters.
    Title,
    /// The description has under 32 or over 2056 characters.
    Description,
    /// The offer is not marked as translated.
    Untranslated,
    /// The terms were not accepted.
    TermsNotAccepted,
    /// The password has under 4 or over 32 characters.
    Password,
}

impl RejectionReason {
    /// The place of the rule in the order in which the rules are tried.
    pub open spec fn order(self) -> nat {
        match self {
            RejectionReason::Name => 0,
            RejectionReason::Age => 1,
            RejectionReason::PersonalName => 2,
            RejectionReason::Gender => 3,
            RejectionReason::Photo => 4,
            RejectionReason::Contact => 5,
            RejectionReason::StreetAddress => 6,
            RejectionReason::City => 7,
            RejectionReason::AdditionalInfo => 8,
            RejectionReason::Title => 9,
            RejectionReason::Description => 10,
            RejectionReason::Untranslated => 11,
            RejectionReason::TermsNotAccepted => 12,
            RejectionReason::Password => 13,
        }
    }

    /// What the submitter is told. The wording is fixed, for those who match
    /// on it; the numbers in it are not everywhere the bounds of the rule,
    /// which are those given with `RejectionReason`.
    pub open spec fn text(self) -> Seq<char> {
        match self {
            RejectionReason::Name => "Name must be between 2 and 64 characters."@,
            RejectionReason::Age => "You must be above 18 years old."@,
            RejectionReason::PersonalName =>
                "First and Last name must be between 1 and 64 characters."@,
            RejectionReason::Gender => "Gender should be between 1 and 16 characters."@,
            RejectionReason::Photo =>
                "Uploaded image is too big, reduce the size by compressing it (e. jpeg format) and try again."@,
            RejectionReason::Contact => "Contact data can be up to 128 characters"@,
            RejectionReason::StreetAddress =>
                "Street address must be between 1 and 128 characters."@,
            RejectionReason::City => "City must be between 1 and 64 characters."@,
            RejectionReason::AdditionalInfo =>
                "Additional location info must be between 1 and 128 characters."@,
            RejectionReason::Title => "Title must be between 8 and 256 characters."@,
            RejectionReason::Description =>
                "Description must be between 32 and 1024 characters."@,
            RejectionReason::Untranslated =>
                "Offer must be translated into all 3 primary languages (english, polish, ukrainian). Use google translate."@,
            RejectionReason::TermsNotAccepted =>
                "You must accept the simplified terms & privacy policy."@,
            RejectionReason::Password => "Password must be between 4 and 32 characters."@,
        }
    }

    /// What the submitter is told.
    pub fn message(&self) -> (message: String)
        ensures
            message@ == self.text(),
    {
        match self {
            RejectionReason::Name => "Name must be between 2 and 64 characters.".to_owned(),
            RejectionReason::Age => "You must be above 18 years old.".to_owned(),
            RejectionReason::PersonalName =>
                "First and Last name must be between 1 and 64 characters.".to_owned(),
            RejectionReason::Gender => "Gender should be between 1 and 16 characters.".to_owned(),
            RejectionReason::Photo =>
                "Uploaded image is too big, reduce the size by compressing it (e. jpeg format) and try again.".to_owned(),
            RejectionReason::Contact => "Contact data can be up to 128 characters".to_owned(),
            RejectionReason::StreetAddress =>
                "Street address must be between 1 and 128 characters.".to_owned(),
            RejectionReason::City => "City must be between 1 and 64 characters.".to_owned(),
            RejectionReason::AdditionalInfo =>
                "Additional location info must be between 1 and 128 characters.".to_owned(),
            RejectionReason::Title => "Title must be between 8 and 256 characters.".to_owned(),
            RejectionReason::Description =>
                "Description must be between 32 and 1024 characters.".to_owned(),
            RejectionReason::Untranslated =>
                "Offer must be translated into all 3 primary languages (english, polish, ukrainian). Use google translate.".to_owned(),
            RejectionReason::TermsNotAccepted =>
                "You must accept the simplified terms & privacy policy.".to_owned(),
            RejectionReason::Password => "Password must be between 4 and 32 characters.".to_owned(),
        }
    }
}

/// Whether a text has at least `least` and at most `most` characters.
pub open spec fn length_within(text: Seq<char>, least: nat, most: nat) -> bool {
    least <= text.len() <= most
}

/// Whether a text has at least `least` and at most `most` characters.
pub fn has_length_within(text: &str, least: usize, most: usize) -> (within: bool)
    ensures
        within == length_within(text@, least as nat, most as nat),
{
    let len: usize = text.unicode_len();
    least <= len && len <= most
}

impl OfferRequestView {
    /// Whether the request breaks the rule, taken by itself.
    pub open spec fn breaks(self, rule: RejectionReason) -> bool {
        match rule {
            RejectionReason::Name => !length_within(self.name, 2, 64),
            RejectionReason::Age => self.personal matches Some(personal) && personal.age < 18,
            RejectionReason::PersonalName => self.personal matches Some(personal) && !(
            length_within(personal.first_name, 1, 64) && length_within(
                personal.last_name,
                1,
                64,
            )),
            RejectionReason::Gender => self.personal matches Some(personal) && !length_within(
                personal.gender,
                1,
                32,
            ),
            RejectionReason::Photo => self.personal matches Some(personal) && !length_within(
                personal.photo_b64_img,
                64,
                999_999,
            ),
            RejectionReason::Contact => !length_within(self.contact, 0, 128),
            RejectionReason::StreetAddress => !length_within(
                self.location.street_address,
                1,
                128,
            ),
            RejectionReason::City => !length_within(self.location.city, 1, 128),
            RejectionReason::AdditionalInfo => !length_within(
                self.location.additional_info,
                1,
                256,
            ),
            RejectionReason::Title => !length_within(self.title, 8, 512),
            RejectionReason::Description => !length_within(self.description, 32, 2056),
            RejectionReason::Untranslated => !self.translated,
            RejectionReason::TermsNotAccepted => !self.accepted_terms,
            RejectionReason::Password => !length_within(self.password, 4, 32),
        }
    }

    /// The first rule, in the order of the rules, that the request breaks.
    pub open spec fn first_violation(self) -> Option<RejectionReason> {
        if self.breaks(RejectionReason::Name) {
            Some(RejectionReason::Name)
        } else if self.breaks(RejectionReason::Age) {
            Some(RejectionReason::Age)
        } else if self.breaks(RejectionReason::PersonalName) {
            Some(RejectionReason::PersonalName)
        } else if self.breaks(RejectionReason::Gender) {
            Some(RejectionReason::Gender)
        } else if self.breaks(RejectionReason::Photo) {
            Some(RejectionReason::Photo)
        } else if self.breaks(RejectionReason::Contact) {
            Some(RejectionReason::Contact)
        } else if self.breaks(RejectionReason::StreetAddress) {
            Some(RejectionReason::StreetAddress)
        } else if self.breaks(RejectionReason::City) {
            Some(RejectionReason::City)
        } else if self.breaks(RejectionReason::AdditionalInfo) {
            Some(RejectionReason::AdditionalInfo)
        } else if self.breaks(RejectionReason::Title) {
            Some(RejectionReason::Title)
        } else if self.breaks(RejectionReason::Description) {
            Some(RejectionReason::Description)
        } else if self.breaks(RejectionReason::Untranslated) {
            Some(RejectionReason::Untranslated)
        } else if self.breaks(RejectionReason::TermsNotAccepted) {
            Some(RejectionReason::TermsNotAccepted)
        } else if self.breaks(RejectionReason::Password) {
            Some(RejectionReason::Password)
        } else {
            None
        }
    }

    /// Whether the request keeps every bound: those of the offer that it
    /// becomes, and the terms accepted.
    pub open spec fn acceptable(self) -> bool {
        &&& length_within(self.name, 2, 64)
        &&& self.personal matches Some(personal) ==> personal.within_bounds()
        &&& self.contact.len() <= 128
        &&& self.location.within_bounds()
        &&& length_within(self.title, 8, 512)
        &&& length_within(self.description, 32, 2056)
        &&& self.translated
        &&& self.accepted_terms
        &&& length_within(self.password, 4, 32)
    }

    /// The offer that an accepted request becomes under the id `id` at the
    /// time `now`: what was submitted, without the acceptance of the terms
    /// and the captcha, approved, and created and last written at `now`.
    pub open spec fn normalized(self, id: Seq<char>, now: u64) -> OfferView {
        OfferView {
            otype: self.otype,
            name: self.name,
            personal: self.personal,
            contact: self.contact,
            title: self.title,
            location: self.location,
            description: self.description,
            available_spaces: self.available_spaces,
            translated: self.translated,
            id,
            password: self.password,
            approved: true,
            creation_epoch: now,
            update_epoch: now,
        }
    }
}

impl OfferRequest {
    /// Tries the rules in their order and reports the first that is broken.
    pub fn check(&self) -> (violation: Option<RejectionReason>)
        ensures
            violation == self@.first_violation(),
    {
        if !has_length_within(self.name.as_str(), 2, 64) {
            return Some(RejectionReason::Name);
        }
        match &self.personal {
            Some(personal) => {
                if personal.age < 18 {
                    return Some(RejectionReason::Age);
                }
                if !has_length_within(personal.first_name.as_str(), 1, 64) || !has_length_within(
                    personal.last_name.as_str(),
                    1,
                    64,
                ) {
                    return Some(RejectionReason::PersonalName);
                }
                if !has_length_within(personal.gender.as_str(), 1, 32) {
                    return Some(RejectionReason::Gender);
                }
                if !has_length_within(personal.photo_b64_img.as_str(), 64, 999_999) {
                    return Some(RejectionReason::Photo);
                }
            },
            None => {},
        }
        if !has_length_within(self.contact.as_str(), 0, 128) {
            return Some(RejectionReason::Contact);
        }
        if !has_length_within(self.location.street_address.as_str(), 1, 128) {
            return Some(RejectionReason::StreetAddress);
        }
        if !has_length_within(self.location.city.as_str(), 1, 128) {
            return Some(RejectionReason::City);
        }
        if !has_length_within(self.location.additional_info.as_str(), 1, 256) {
            return Some(RejectionReason::AdditionalInfo);
        }
        if !has_length_within(self.title.as_str(), 8, 512) {
            return Some(RejectionReason::Title);
        }
        if !has_length_within(self.description.as_str(), 32, 2056) {
            return Some(RejectionReason::Description);
        }
        if !self.translated {
            return Some(RejectionReason::Untranslated);
        }
        if !self.accepted_terms {
            return Some(RejectionReason::TermsNotAccepted);
        }
        if !has_length_within(self.password.as_str(), 4, 32) {
            return Some(RejectionReason::Password);
        }
        None
    }

    /// Makes the offer that the request becomes under the id `id` at the
    /// time `now`.
    pub fn into_offer(self, id: String, now: u64) -> (offer: Offer)
        ensures
            offer@ == self@.normalized(id@, now),
    {
        Offer {
            otype: self.otype,
            name: self.name,
            personal: self.personal,
            contact: self.contact,
            title: self.title,
            location: self.location,
            description: self.description,
            available_spaces: self.available_spaces,
            translated: self.translated,
            id,
            password: self.password,
            approved: true,
            creation_epoch: now,
            update_epoch: now,
        }
    }
}

/// A request that keeps every bound breaks no rule, and a request that
/// breaks no rule keeps every bound: such requests, and no others, are
/// accepted.
pub proof fn law_acceptable_breaks_no_rule(req: OfferRequestView)
    ensures
        req.acceptable() <==> req.first_violation() is None,
        req.acceptable() <==> forall|rule: RejectionReason| !req.breaks(rule),
{
    if req.first_violation() is None {
        assert forall|rule: RejectionReason| !req.breaks(rule) by {}
    }
}

/// The rule that is reported is a rule that the request breaks, and the
/// request breaks no rule that is tried before it; and a rule of which both
/// hold is the one reported.
pub proof fn law_first_broken_rule_is_reported(req: OfferRequestView, rule: RejectionReason)
    ensures
        req.first_violation() == Some(rule) <==> req.breaks(rule) && forall|
            earlier: RejectionReason,
        |
            earlier.order() < rule.order() ==> !req.breaks(earlier),
{
}

/// A request that breaks one rule and no other is turned down for that
/// rule.
pub proof fn law_single_broken_rule_is_reported(req: OfferRequestView, rule: RejectionReason)
    requires
        req.breaks(rule),
        forall|other: RejectionReason| other != rule ==> !req.breaks(other),
    ensures
        req.first_violation() == Some(rule),
{
    law_first_broken_rule_is_reported(req, rule);
}

/// Tries the rules on a submitted offer, and makes the offer that it becomes
/// under the id `id` at the time `now`, or reports the first rule that it
/// breaks.
pub fn validate_with_id(req: OfferRequest, id: String, now: u64) -> (outcome: Result<
    Offer,
    RejectionReason,
>)
    ensures
        match req@.first_violation() {
            Some(rule) => outcome == Err::<Offer, RejectionReason>(rule),
            None => outcome matches Ok(offer) && offer@ == req@.normalized(id@, now),
        },
{
    match req.check() {
        Some(rule) => Err(rule),
        None => Ok(req.into_offer(id, now)),
    }
}

/// Tries the rules on a submitted offer. One that breaks none becomes an
/// offer under a fresh id of four letters and digits, approved, created and
/// last written at `now`; of one that breaks a rule, the first broken rule
/// is reported and no id is drawn.
pub fn validate(req: OfferRequest, now: u64) -> (outcome: Result<Offer, RejectionReason>)
    ensures
        match req@.first_violation() {
            Some(rule) => outcome == Err::<Offer, RejectionReason>(rule),
            None => outcome matches Ok(offer) && offer@ == req@.normalized(offer@.id, now)
                && offer@.id.len() == ID_LENGTH && is_id(offer@.id) && offer@.within_bounds(),
        },
{
    match req.check() {
        Some(rule) => Err(rule),
        None => {
            proof {
                law_acceptable_breaks_no_rule(req@);
            }
            let id = rnd_id(ID_LENGTH);
            Ok(req.into_offer(id, now))
        },
    }
}

} // verus!
