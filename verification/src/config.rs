//! The site's configuration, as the pipeline receives it.

use vstd::prelude::*;

verus! {

/// The whole configuration.
#[derive(Debug, PartialEq, Eq, Default)]
pub struct Config {
    pub site: Site,
    pub data: Data,
}

/// What the pages say of the site itself.
#[derive(Debug, PartialEq, Eq, Default)]
pub struct Site {
    pub base_uri: String,
    pub name: String,
    pub proto: String,
    pub description: String,
}

/// Where the pipeline reads and writes.
#[derive(Debug, PartialEq, Eq, Default)]
pub struct Data {
    /// The directory of the track logs.
    pub gpx_input: String,
    /// The directory of the photographs.
    pub img_input: String,
    /// The root of the site that is written.
    pub site_output: String,
}

} // verus!
