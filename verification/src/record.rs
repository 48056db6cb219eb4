//! The catalog's entities: the flat station record produced by the
//! normalizer, and the response shape of the query engine.

use vstd::prelude::*;

verus! {

/// A flat catalog entry for one transit station.
///
/// The three required fields (`title`, `station_type`, `yandex_code`) are
/// always present: the normalizer drops any source entity that lacks one of
/// them.  The optional fields keep an explicit present/absent distinction,
/// so "not in the source" is never conflated with "present but empty".
/// The six lineage fields carry the title and code of the country, region
/// and settlement the station was found under; they are the empty string
/// where the source elided the ancestor's title or code.
///
/// `longitude` and `latitude` hold the IEEE 754 bit pattern of the source
/// coordinate.  The catalog never computes with coordinates, it only stores
/// and returns them, so they travel as opaque 64-bit values.
#[derive(Debug, Clone, PartialEq)]
pub struct StationRecord {
    pub title: String,
    pub station_type: String,
    pub yandex_code: String,
    pub longitude: Option<u64>,
    pub latitude: Option<u64>,
    pub transport_type: Option<String>,
    pub direction: Option<String>,
    pub esr_code: Option<String>,
    pub country: String,
    pub country_code: String,
    pub region: String,
    pub region_code: String,
    pub settlement: String,
    pub settlement_code: String,
}

/// The mathematical value of a [`StationRecord`]: each text field as a
/// sequence of characters.
pub struct StationRecordView {
    pub title: Seq<char>,
    pub station_type: Seq<char>,
    pub yandex_code: Seq<char>,
    pub longitude: Option<u64>,
    pub latitude: Option<u64>,
    pub transport_type: Option<Seq<char>>,
    pub direction: Option<Seq<char>>,
    pub esr_code: Option<Seq<char>>,
    pub country: Seq<char>,
    pub country_code: Seq<char>,
    pub region: Seq<char>,
    pub region_code: Seq<char>,
    pub settlement: Seq<char>,
    pub settlement_code: Seq<char>,
}

impl View for StationRecord {
    type V = StationRecordView;

    open spec fn view(&self) -> StationRecordView {
        StationRecordView {
            title: self.title@,
            station_type: self.station_type@,
            yandex_code: self.yandex_code@,
            longitude: self.longitude,
            latitude: self.latitude,
            transport_type: self.transport_type.deep_view(),
            direction: self.direction.deep_view(),
            esr_code: self.esr_code.deep_view(),
            country: self.country@,
            country_code: self.country_code@,
            region: self.region@,
            region_code: self.region_code@,
            settlement: self.settlement@,
            settlement_code: self.settlement_code@,
        }
    }
}

impl DeepView for StationRecord {
    type V = StationRecordView;

    open spec fn deep_view(&self) -> StationRecordView {
        self.view()
    }
}

} // verus!
