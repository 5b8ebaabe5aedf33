//! Reverse geocoding: the request that asks for the place of a centroid, and
//! what is made of the answer.

use vstd::prelude::*;
use vstd::string::*;
use crate::geometry::{degrees_of, degrees_text, Coordinate};
use crate::text::same_text;

verus! {

/// The answer of the geocoder: the parts of an address, each under its name.
/// A name stands for its first entry.
#[derive(Debug, PartialEq, Eq, Default)]
pub struct ReverseGeocoding {
    pub address: Vec<(String, String)>,
}

/// The service that is asked.
pub const GEOCODER: &'static str = "https://nominatim.openstreetmap.org/reverse.php";

/// The URL that `base` and the query parameters `params` make, or `None`
/// where `base` is no absolute URL.
pub uninterp spec fn url_with_params(base: Seq<char>, params: Seq<(Seq<char>, Seq<char>)>) -> Option<
    Seq<char>,
>;

/// `reqwest::Url::parse_with_params`, followed by the text of the URL it
/// made. The call parses `base` as an absolute URL and appends each pair to
/// its query, encoded; it fails where `base` does not parse. The contract
/// claims only that the outcome is fixed by the base and the pairs, and only
/// for the one service that is asked.
#[verifier::external_body]
fn build_url(base: &str, params: &Vec<(String, String)>) -> (r: Option<String>)
    requires
        base@ == GEOCODER@,
    ensures
        match r {
            Some(url) => url_with_params(base@, params.deep_view()) == Some(url@),
            None => url_with_params(base@, params.deep_view()) is None,
        },
{
    match reqwest::Url::parse_with_params(base, params.iter()) {
        Ok(url) => Some(String::from(url)),
        Err(_) => None,
    }
}

/// The query that asks for the place of `centroid`: the answer as JSON, the
/// position in degrees, names in French, and the coarsest resolution, that
/// of countries.
pub open spec fn query_of(centroid: Coordinate) -> Seq<(Seq<char>, Seq<char>)> {
    seq![
        ("format"@, "json"@),
        ("lat"@, degrees_of(centroid.lat)),
        ("lon"@, degrees_of(centroid.lon)),
        ("accept-language"@, "fr"@),
        ("zoom"@, "0"@),
    ]
}

/// The value of the first entry of `address` under the name `name`.
pub open spec fn lookup(address: Seq<(String, String)>, name: Seq<char>) -> Option<String>
    decreases address.len(),
{
    if address.len() == 0 {
        None
    } else if address.first().0@ == name {
        Some(address.first().1)
    } else {
        lookup(address.drop_first(), name)
    }
}

/// The place name that an answer yields: its country, and the empty name
/// where there is no answer or the answer names no country.
pub open spec fn place_of(answer: Option<ReverseGeocoding>) -> Seq<char> {
    match answer {
        Some(found) => match lookup(found.address@, "country"@) {
            Some(country) => country@,
            None => Seq::empty(),
        },
        None => Seq::empty(),
    }
}

/// Builds the query that asks for the place of `centroid`.
pub fn geocoding_query(centroid: &Coordinate) -> (r: Vec<(String, String)>)
    ensures
        r.deep_view() == query_of(*centroid),
{
    let mut query: Vec<(String, String)> = Vec::new();
    query.push((String::from_str("format"), String::from_str("json")));
    query.push((String::from_str("lat"), degrees_text(centroid.lat)));
    query.push((String::from_str("lon"), degrees_text(centroid.lon)));
    query.push((String::from_str("accept-language"), String::from_str("fr")));
    query.push((String::from_str("zoom"), String::from_str("0")));
    assert(query.deep_view() =~= query_of(*centroid));
    query
}

/// Builds the URL of the request that asks for the place of `centroid`.
pub fn reverse_geocoding(centroid: &Coordinate) -> (r: Option<String>)
    ensures
        match r {
            Some(url) => url_with_params(GEOCODER@, query_of(*centroid)) == Some(url@),
            None => url_with_params(GEOCODER@, query_of(*centroid)) is None,
        },
{
    let query = geocoding_query(centroid);
    build_url(GEOCODER, &query)
}

/// Finds the first entry of `address` under the name `name`.
pub fn find_entry(address: &Vec<(String, String)>, name: &str) -> (r: Option<String>)
    ensures
        r == lookup(address@, name@),
{
    let mut i: usize = 0;
    assert(address@.skip(0) =~= address@);
    while i < address.len()
        invariant
            i <= address@.len(),
            lookup(address@, name@) == lookup(address@.skip(i as int), name@),
        decreases address@.len() - i,
    {
        proof {
            assert(address@.skip(i as int).drop_first() =~= address@.skip(i + 1));
        }
        if same_text(address[i].0.as_str(), name) {
            return Some(address[i].1.clone());
        }
        i += 1;
    }
    None
}

/// Takes the place name from the geocoder's answer. No answer, or one
/// without a country, gives the empty name: a failed lookup never stops a
/// track.
pub fn country_of(answer: &Option<ReverseGeocoding>) -> (r: String)
    ensures
        r@ == place_of(*answer),
{
    match answer {
        Some(found) => match find_entry(&found.address, "country") {
            Some(country) => country,
            None => String::new(),
        },
        None => String::new(),
    }
}

} // verus!
