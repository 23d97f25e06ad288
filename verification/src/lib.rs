//! Chart lookup service for the FAA digital terminal procedures publication
//! (d-TPP): the metafile model, the chart index built from it, and the rules
//! that answer chart queries.

pub mod chart_index;
pub mod cycle;
pub mod entries;
pub mod faa_metafile;
pub mod grouping;
pub mod host;
pub mod queries;
pub mod reload;
pub mod response_dtos;
pub mod text;
