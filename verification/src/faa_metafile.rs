use vstd::prelude::*;

verus! {

/// The d-TPP metafile: the publication cycle and its charts by state.
pub struct DigitalTpp {
    pub cycle: String,
    pub from_effective_date: String,
    pub to_effective_date: String,
    pub states: Vec<State>,
}

/// A state of the metafile and its cities.
pub struct State {
    pub id: String,
    pub full_name: String,
    pub cities: Vec<City>,
}

/// A city of the metafile and its airports.
pub struct City {
    pub id: String,
    pub volume: String,
    pub airports: Vec<Airport>,
}

/// An airport of the metafile and its chart records.
pub struct Airport {
    pub id: String,
    pub military: String,
    pub apt_ident: String,
    pub icao_ident: String,
    pub alnum: String,
    pub chart_records: Vec<ChartRecord>,
}

/// One chart record of the metafile.
pub struct ChartRecord {
    pub chartseq: String,
    pub chart_code: String,
    pub chart_name: String,
    pub useraction: String,
    pub pdf_name: String,
    pub cn_flg: String,
    pub cnsection: String,
    pub cnpage: String,
    pub bvsection: String,
    pub bvpage: String,
    pub procuid: String,
    pub two_colored: String,
    pub civil: String,
    pub faanfd18: String,
    pub copter: String,
    pub amdtnum: String,
    pub amdtdate: String,
}

/// The product set that announces the current edition.
pub struct ProductSet {
    pub xmlns: String,
    pub status: String,
    pub edition: Edition,
}

/// The status line of a product set.
pub struct Status {
    pub code: String,
    pub message: String,
}

/// The current edition of the publication.
pub struct Edition {
    pub geoname: String,
    pub name: String,
    pub format: String,
    pub date: String,
    pub number: String,
}

} // verus!
