use vstd::prelude::*;

verus! {

/// A request to replace the query that defines a view.
#[derive(Clone, Debug, PartialEq)]
pub struct AlterViewPlan {
    pub tenant: String,
    pub catalog: String,
    pub database: String,
    pub viewname: String,
    pub subquery: String,
}

/// Settings of the store service: its log level and the addresses it serves
/// metrics and data on.
#[derive(Clone, Debug, PartialEq)]
pub struct Config {
    pub log_level: String,
    pub metric_api_address: String,
    pub flight_api_address: String,
}

} // verus!
