//! Places: where an offer is based, and the two ends of a journey.

use vstd::prelude::*;

verus! {

/// A point on the globe. Each coordinate is held as the bit pattern of its
/// 64-bit IEEE 754 value (what `f64::to_bits` gives and `f64::from_bits`
/// takes), so that the point is carried through unchanged, bit for bit.
#[derive(Debug, Clone, Copy, PartialEq, Eq)]
pub struct LocationPoint {
    /// longitude
    pub lon_bits: u64,
    /// latitude
    pub lat_bits: u64,
}

#[derive(Debug, Clone, Copy, PartialEq, Eq)]
pub enum Country {
    Ukraine,
    Poland,
    Romania,
    Europe,
    Other,
}

#[derive(Debug, Clone, PartialEq, Eq)]
pub struct Location {
    pub geo: LocationPoint,
    pub country: Country,
    /// Full city name, with its postal code
    pub city: String,
    /// Full street name, with the number of the flat and the like
    pub street_address: String,
    /// What else helps to find the place
    pub additional_info: String,
}

/// A location, as mathematics sees it.
pub ghost struct LocationView {
    pub geo: LocationPoint,
    pub country: Country,
    pub city: Seq<char>,
    pub street_address: Seq<char>,
    pub additional_info: Seq<char>,
}

impl View for Location {
    type V = LocationView;

    open spec fn view(&self) -> LocationView {
        LocationView {
            geo: self.geo,
            country: self.country,
            city: self.city@,
            street_address: self.street_address@,
            additional_info: self.additional_info@,
        }
    }
}

impl LocationView {
    /// The bounds that the location of an offer keeps: 1 to 128 characters
    /// of street address, 1 to 128 of city, 1 to 256 of additional
    /// information.
    pub open spec fn within_bounds(self) -> bool {
        &&& 1 <= self.street_address.len() <= 128
        &&& 1 <= self.city.len() <= 128
        &&& 1 <= self.additional_info.len() <= 256
    }
}

#[derive(Debug, Clone, PartialEq, Eq)]
pub struct LocationPath {
    pub from: Location,
    pub to: Location,
}

/// The two ends of a journey, as mathematics sees them.
pub ghost struct LocationPathView {
    pub from: LocationView,
    pub to: LocationView,
}

impl View for LocationPath {
    type V = LocationPathView;

    open spec fn view(&self) -> LocationPathView {
        LocationPathView { from: self.from@, to: self.to@ }
    }
}

} // verus!
