//! Exporter of air-quality readings from the public PJP monitoring API,
//! with the scrape pipeline, the metric model and the timestamp codec verified.
use vstd::prelude::*;

pub mod api;
pub mod metrics;
pub mod pollutant;
pub mod scraper;
pub mod timestamp;

verus! {

} // verus!
