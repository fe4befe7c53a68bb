use vstd::prelude::*;
use isocountry::CountryCode;
use weather_util_rust::latitude::Latitude;
use weather_util_rust::longitude::Longitude;

use crate::decimal::{parse_u64, spec_parse_u64};
use crate::text::{split_char, split_on_char};

verus! {

#[verifier::external_type_specification]
#[verifier::external_body]
pub struct ExLatitude(Latitude);

#[verifier::external_type_specification]
#[verifier::external_body]
pub struct ExLongitude(Longitude);

#[verifier::external_type_specification]
#[verifier::external_body]
pub struct ExCountryCode(CountryCode);

/// Trusted: `Latitude` derives `Clone` beside `Copy`, so a clone is the value itself.
pub assume_specification[ <Latitude as Clone>::clone ](x: &Latitude) -> (r: Latitude)
    ensures
        r == *x,
;

/// Trusted: `Longitude` derives `Clone` beside `Copy`, so a clone is the value itself.
pub assume_specification[ <Longitude as Clone>::clone ](x: &Longitude) -> (r: Longitude)
    ensures
        r == *x,
;

/// Trusted: `CountryCode` derives `Clone` beside `Copy`, so a clone is the value itself.
pub assume_specification[ <CountryCode as Clone>::clone ](x: &CountryCode) -> (r: CountryCode)
    ensures
        r == *x,
;

/// What `Latitude::from_str` gives for a text (`None` where it fails).
pub uninterp spec fn latitude_from_str(s: Seq<char>) -> Option<Latitude>;

/// What `Longitude::from_str` gives for a text (`None` where it fails).
pub uninterp spec fn longitude_from_str(s: Seq<char>) -> Option<Longitude>;

/// What `CountryCode::for_alpha2` gives for a text (`None` where it fails).
pub uninterp spec fn country_for_alpha2(s: Seq<char>) -> Option<CountryCode>;

/// Trusted: `Latitude::from_str` of weather_util_rust, which parses the text
/// as an `f64` and converts the degrees; the result depends on the text alone.
#[verifier::external_body]
pub(crate) fn parse_latitude(s: &str) -> (r: Option<Latitude>)
    ensures
        r == latitude_from_str(s@),
{
    s.parse::<Latitude>().ok()
}

/// Trusted: `Longitude::from_str` of weather_util_rust, which parses the text
/// as an `f64` and converts the degrees; the result depends on the text alone.
#[verifier::external_body]
pub(crate) fn parse_longitude(s: &str) -> (r: Option<Longitude>)
    ensures
        r == longitude_from_str(s@),
{
    s.parse::<Longitude>().ok()
}

/// Trusted: `CountryCode::for_alpha2` of isocountry, a fixed table from
/// two-letter codes to countries; the result depends on the text alone.
#[verifier::external_body]
pub(crate) fn country_code_for_alpha2(s: &str) -> (r: Option<CountryCode>)
    ensures
        r == country_for_alpha2(s@),
{
    CountryCode::for_alpha2(s).ok()
}

/// Whether `Latitude`'s `==` holds of two latitudes.
pub uninterp spec fn latitude_eq(a: Latitude, b: Latitude) -> bool;

/// Whether `Longitude`'s `==` holds of two longitudes.
pub uninterp spec fn longitude_eq(a: Longitude, b: Longitude) -> bool;

/// Trusted: `==` of `Latitude`, which weather_util_rust derives from that of
/// its `Angle`: the same whole degrees modulo 360, minutes and seconds; the
/// result depends on the two values alone.
#[verifier::external_body]
pub(crate) fn latitudes_equal(a: &Latitude, b: &Latitude) -> (r: bool)
    ensures
        r == latitude_eq(*a, *b),
{
    *a == *b
}

/// Trusted: `==` of `Longitude`, derived in weather_util_rust from that of its
/// `Angle`; the result depends on the two values alone.
#[verifier::external_body]
pub(crate) fn longitudes_equal(a: &Longitude, b: &Longitude) -> (r: bool)
    ensures
        r == longitude_eq(*a, *b),
{
    *a == *b
}

/// Trusted: `==` of `CountryCode`, which isocountry derives on an enum whose
/// variants carry no data: equal exactly when the variants are the same.
#[verifier::external_body]
fn country_codes_equal(a: &CountryCode, b: &CountryCode) -> (r: bool)
    ensures
        r == (*a == *b),
{
    *a == *b
}

/// A place to ask the weather for.
#[derive(Clone, Debug, PartialEq)]
pub enum WeatherLocation {
    ZipCode { zipcode: u64, country_code: Option<CountryCode> },
    CityName(String),
    LatLon { latitude: Latitude, longitude: Longitude },
}

/// The mathematical model of a [`WeatherLocation`].
pub enum LocationView {
    ZipCode { zipcode: u64, country_code: Option<CountryCode> },
    CityName(Seq<char>),
    LatLon { latitude: Latitude, longitude: Longitude },
}

impl View for WeatherLocation {
    type V = LocationView;

    open spec fn view(&self) -> LocationView {
        match self {
            WeatherLocation::ZipCode { zipcode, country_code } => LocationView::ZipCode {
                zipcode: *zipcode,
                country_code: *country_code,
            },
            WeatherLocation::CityName(name) => LocationView::CityName(name@),
            WeatherLocation::LatLon { latitude, longitude } => LocationView::LatLon {
                latitude: *latitude,
                longitude: *longitude,
            },
        }
    }
}

/// Whether two locations are the same as `==` of [`WeatherLocation`] tells
/// them: the same variant with equal fields, coordinates compared as their
/// types compare them.
pub open spec fn same_location(a: LocationView, b: LocationView) -> bool {
    match (a, b) {
        (
            LocationView::ZipCode { zipcode: z1, country_code: c1 },
            LocationView::ZipCode { zipcode: z2, country_code: c2 },
        ) => z1 == z2 && c1 == c2,
        (LocationView::CityName(n1), LocationView::CityName(n2)) => n1 == n2,
        (
            LocationView::LatLon { latitude: la1, longitude: lo1 },
            LocationView::LatLon { latitude: la2, longitude: lo2 },
        ) => latitude_eq(la1, la2) && longitude_eq(lo1, lo2),
        _ => false,
    }
}

/// Whether two locations are the same.
pub fn locations_equal(a: &WeatherLocation, b: &WeatherLocation) -> (r: bool)
    ensures
        r == same_location(a@, b@),
{
    match (a, b) {
        (
            WeatherLocation::ZipCode { zipcode: z1, country_code: c1 },
            WeatherLocation::ZipCode { zipcode: z2, country_code: c2 },
        ) => {
            if *z1 != *z2 {
                return false;
            }
            match (c1, c2) {
                (Some(x), Some(y)) => country_codes_equal(x, y),
                (None, None) => true,
                _ => false,
            }
        },
        (WeatherLocation::CityName(n1), WeatherLocation::CityName(n2)) => *n1 == *n2,
        (
            WeatherLocation::LatLon { latitude: la1, longitude: lo1 },
            WeatherLocation::LatLon { latitude: la2, longitude: lo2 },
        ) => latitudes_equal(la1, la2) && longitudes_equal(lo1, lo2),
        _ => false,
    }
}

/// How a search text is read: a number is a zip code; a text with a comma
/// whose first two pieces parse as latitude and longitude is a coordinate
/// pair; anything else is a city name.
pub open spec fn spec_get_parameters(s: Seq<char>) -> LocationView {
    match spec_parse_u64(s) {
        Ok(zip) => LocationView::ZipCode { zipcode: zip, country_code: None },
        Err(_) => {
            let parts = split_char(s, ',');
            if s.contains(',') && parts.len() >= 2 {
                match (latitude_from_str(parts[0]), longitude_from_str(parts[1])) {
                    (Some(lat), Some(lon)) => LocationView::LatLon { latitude: lat, longitude: lon },
                    _ => LocationView::CityName(s),
                }
            } else {
                LocationView::CityName(s)
            }
        },
    }
}

/// Reads a search text as a location.
pub fn get_parameters(search_str: &str) -> (r: WeatherLocation)
    ensures
        r@ == spec_get_parameters(search_str@),
{
    if let Ok(zip) = parse_u64(search_str) {
        return WeatherLocation::ZipCode { zipcode: zip, country_code: None };
    }
    let parts = split_on_char(search_str, ',');
    let has_comma = parts.len() >= 2;
    proof {
        crate::text::lemma_split_len_contains(search_str@, ',');
    }
    if has_comma {
        let lat = parse_latitude(parts[0].as_str());
        let lon = parse_longitude(parts[1].as_str());
        if let (Some(latitude), Some(longitude)) = (lat, lon) {
            return WeatherLocation::LatLon { latitude, longitude };
        }
    }
    WeatherLocation::CityName(String::from_str(search_str))
}

/// The decimal text of any number is read as that zip code.
pub proof fn lemma_number_text_is_zip(n: u64)
    ensures
        spec_get_parameters(crate::decimal::decimal(n as nat)) == (LocationView::ZipCode {
            zipcode: n,
            country_code: None,
        }),
{
    crate::decimal::lemma_parse_decimal_roundtrip(n);
}

} // verus!
