//! The shape of the HTTP interface: its operations, the headers every response carries, and
//! where the upstream feeds are published.
use vstd::prelude::*;

verus! {

/// The operations of the HTTP interface. Every namespace offers all of them.
#[derive(Debug, Clone, Copy, PartialEq, Eq, Structural)]
pub enum Operation {
    FuzzySearch,
    ListAllAreas,
    ListAreas,
    Outages,
    Schedules,
}

impl Operation {
    /// The route of this operation below its namespace.
    pub open spec fn spec_path(self) -> Seq<char> {
        match self {
            Operation::FuzzySearch => "/fuzzy_search/<query>"@,
            Operation::ListAllAreas => "/list_areas"@,
            Operation::ListAreas => "/list_areas/<regex>"@,
            Operation::Outages => "/outages/<area_name>"@,
            Operation::Schedules => "/schedules/<area_name>"@,
        }
    }

    pub fn path(&self) -> (r: &'static str)
        ensures
            r@ == self.spec_path(),
    {
        match self {
            Operation::FuzzySearch => "/fuzzy_search/<query>",
            Operation::ListAllAreas => "/list_areas",
            Operation::ListAreas => "/list_areas/<regex>",
            Operation::Outages => "/outages/<area_name>",
            Operation::Schedules => "/schedules/<area_name>",
        }
    }
}

/// The operations of a namespace, in the order they are registered.
pub open spec fn api_operations() -> Seq<Operation> {
    seq![
        Operation::FuzzySearch,
        Operation::ListAllAreas,
        Operation::ListAreas,
        Operation::Outages,
        Operation::Schedules,
    ]
}

/// Where the outage feed of every area is published.
pub fn outage_feed_url() -> (r: &'static str)
    ensures
        r@ == "https://github.com/beyarkay/eskom-calendar/releases/download/latest/machine_friendly.csv"@,
{
    "https://github.com/beyarkay/eskom-calendar/releases/download/latest/machine_friendly.csv"
}

/// The folder under which each area's schedule feed is published.
pub open spec fn schedule_base() -> Seq<char> {
    "https://raw.githubusercontent.com/beyarkay/eskom-calendar/main/generated/"@
}

/// Where the schedule feed of an area is published: the schedule folder, the area's name,
/// and `.csv`.
pub fn schedule_url(area_name: &str) -> (r: String)
    ensures
        r@ == schedule_base() + area_name@ + ".csv"@,
{
    let base = "https://raw.githubusercontent.com/beyarkay/eskom-calendar/main/generated/".to_owned();
    base.concat(area_name).concat(".csv")
}

/// Marks every response as readable from any origin.
pub struct Cors;

impl Cors {
    /// The headers that every response carries, success or error.
    pub open spec fn spec_headers() -> Seq<(Seq<char>, Seq<char>)> {
        seq![
            ("Access-Control-Allow-Origin"@, "*"@),
            ("Access-Control-Allow-Methods"@, "POST, PATCH, PUT, DELETE, HEAD, OPTIONS, GET"@),
            ("Access-Control-Allow-Headers"@, "*"@),
            ("Access-Control-Allow-Credentials"@, "true"@),
        ]
    }

    pub fn name(&self) -> (r: &'static str)
        ensures
            r@ == "Cross-Origin-Resource-Sharing Fairing"@,
    {
        "Cross-Origin-Resource-Sharing Fairing"
    }

    /// The header names and values to set on a response.
    pub fn headers(&self) -> (r: Vec<(&'static str, &'static str)>)
        ensures
            r@.len() == Self::spec_headers().len(),
            forall|i: int|
                0 <= i < r@.len() ==> ((#[trigger] r@[i]).0@, r@[i].1@) == Self::spec_headers()[i],
    {
        let mut r: Vec<(&'static str, &'static str)> = Vec::new();
        r.push(("Access-Control-Allow-Origin", "*"));
        r.push(("Access-Control-Allow-Methods", "POST, PATCH, PUT, DELETE, HEAD, OPTIONS, GET"));
        r.push(("Access-Control-Allow-Headers", "*"));
        r.push(("Access-Control-Allow-Credentials", "true"));
        r
    }
}

} // verus!
