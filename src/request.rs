//! Request bodies and query parameters of the two services.
use vstd::prelude::*;
use vstd::string::StringExecFns;
use crate::text::{int_text, push_int_text};

verus! {

broadcast use vstd::string::group_string_axioms;

/// The metering points a request is about.
pub struct MeteringPoints {
    pub metering_point: Vec<String>,
}

/// Asks for the charges of metering points.
pub struct GetMeteringPointChargesRequest {
    pub metering_points: MeteringPoints,
}

/// Asks for the metering-data time series of metering points.
pub struct GetMeteringDataTimeSeriesRequest {
    pub metering_points: MeteringPoints,
}

/// The query of a spot-price request; each parameter is optional.
pub struct ElSpotPricesRequest {
    pub limit: Option<i32>,
    pub timezone: Option<String>,
    pub start: Option<String>,
    pub end: Option<String>,
    pub filter: Option<String>,
    pub sort: Option<String>,
}

/// The pair `(name, value)` where there is a value, nothing otherwise.
pub open spec fn param(name: Seq<char>, value: Option<Seq<char>>) -> Seq<(Seq<char>, Seq<char>)> {
    match value {
        Some(v) => seq![(name, v)],
        None => Seq::empty(),
    }
}

pub open spec fn text_of(o: Option<String>) -> Option<Seq<char>> {
    match o {
        Some(s) => Some(s@),
        None => None,
    }
}

/// The text of each pair of a list of string pairs.
pub open spec fn pairs_view(v: Seq<(String, String)>) -> Seq<(Seq<char>, Seq<char>)> {
    v.map_values(|p: (String, String)| (p.0@, p.1@))
}

impl ElSpotPricesRequest {
    /// The query parameters in their fixed order, the present ones only.
    pub open spec fn params(&self) -> Seq<(Seq<char>, Seq<char>)> {
        param("limit"@, match self.limit {
            Some(l) => Some(int_text(l as int)),
            None => None,
        }) + param("timezone"@, text_of(self.timezone)) + param("start"@, text_of(self.start))
            + param("end"@, text_of(self.end)) + param("filter"@, text_of(self.filter))
            + param("sort"@, text_of(self.sort))
    }

    /// The present parameters as flat `(name, value)` string pairs, in the
    /// order limit, timezone, start, end, filter, sort.
    pub fn tuples(self) -> (r: Vec<(String, String)>)
        ensures
            pairs_view(r@) == self.params(),
    {
        let ghost spec_params = self.params();
        let mut payload: Vec<(String, String)> = Vec::new();
        let ghost mut expected: Seq<(Seq<char>, Seq<char>)> = Seq::empty();
        if let Some(val) = self.limit {
            let mut t = String::new();
            push_int_text(&mut t, val as i64);
            payload.push((String::from_str("limit"), t));
        }
        proof { expected = param("limit"@, match self.limit { Some(l) => Some(int_text(l as int)), None => None }); }
        assert(pairs_view(payload@) =~= expected);
        if let Some(val) = self.timezone {
            payload.push((String::from_str("timezone"), val));
        }
        proof { expected = expected + param("timezone"@, text_of(self.timezone)); }
        assert(pairs_view(payload@) =~= expected);
        if let Some(val) = self.start {
            payload.push((String::from_str("start"), val));
        }
        proof { expected = expected + param("start"@, text_of(self.start)); }
        assert(pairs_view(payload@) =~= expected);
        if let Some(val) = self.end {
            payload.push((String::from_str("end"), val));
        }
        proof { expected = expected + param("end"@, text_of(self.end)); }
        assert(pairs_view(payload@) =~= expected);
        if let Some(val) = self.filter {
            payload.push((String::from_str("filter"), val));
        }
        proof { expected = expected + param("filter"@, text_of(self.filter)); }
        assert(pairs_view(payload@) =~= expected);
        if let Some(val) = self.sort {
            payload.push((String::from_str("sort"), val));
        }
        proof { expected = expected + param("sort"@, text_of(self.sort)); }
        assert(pairs_view(payload@) =~= expected);
        payload
    }
}

} // verus!
