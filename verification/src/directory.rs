//! The upstream directory payload and the normalizer that flattens it.
//!
//! The payload is a four-level hierarchy: countries hold regions, regions
//! hold settlements, settlements hold station entities.  The normalizer
//! walks it depth first and projects every station whose three required
//! fields are present into a flat [`StationRecord`], copying the title and
//! code of each ancestor into the record's lineage fields.  Entities that
//! lack a required field contribute nothing; a level whose children are
//! missing contributes nothing.

use vstd::prelude::*;

use crate::record::{StationRecord, StationRecordView};

verus! {

/// One station entity as the upstream directory carries it: every field may
/// be absent.  `longitude` and `latitude` hold the coordinate's IEEE 754
/// bit pattern, as in [`StationRecord`].
#[derive(Debug, Clone, PartialEq)]
pub struct StationEntity {
    pub title: Option<String>,
    pub station_type: Option<String>,
    pub yandex_code: Option<String>,
    pub esr_code: Option<String>,
    pub transport_type: Option<String>,
    pub direction: Option<String>,
    pub longitude: Option<u64>,
    pub latitude: Option<u64>,
}

/// The value of a [`StationEntity`].
pub struct StationEntityView {
    pub title: Option<Seq<char>>,
    pub station_type: Option<Seq<char>>,
    pub yandex_code: Option<Seq<char>>,
    pub esr_code: Option<Seq<char>>,
    pub transport_type: Option<Seq<char>>,
    pub direction: Option<Seq<char>>,
    pub longitude: Option<u64>,
    pub latitude: Option<u64>,
}

impl View for StationEntity {
    type V = StationEntityView;

    open spec fn view(&self) -> StationEntityView {
        StationEntityView {
            title: self.title.deep_view(),
            station_type: self.station_type.deep_view(),
            yandex_code: self.yandex_code.deep_view(),
            esr_code: self.esr_code.deep_view(),
            transport_type: self.transport_type.deep_view(),
            direction: self.direction.deep_view(),
            longitude: self.longitude,
            latitude: self.latitude,
        }
    }
}

impl DeepView for StationEntity {
    type V = StationEntityView;

    open spec fn deep_view(&self) -> StationEntityView {
        self.view()
    }
}

/// A settlement: its own title and code, and the stations under it.
#[derive(Debug, Clone, PartialEq)]
pub struct Settlement {
    pub title: Option<String>,
    pub code: Option<String>,
    pub stations: Vec<StationEntity>,
}

/// The value of a [`Settlement`].
pub struct SettlementView {
    pub title: Option<Seq<char>>,
    pub code: Option<Seq<char>>,
    pub stations: Seq<StationEntityView>,
}

impl View for Settlement {
    type V = SettlementView;

    open spec fn view(&self) -> SettlementView {
        SettlementView {
            title: self.title.deep_view(),
            code: self.code.deep_view(),
            stations: self.stations.deep_view(),
        }
    }
}

impl DeepView for Settlement {
    type V = SettlementView;

    open spec fn deep_view(&self) -> SettlementView {
        self.view()
    }
}

/// A region: its own title and code, and the settlements under it.
#[derive(Debug, Clone, PartialEq)]
pub struct Region {
    pub title: Option<String>,
    pub code: Option<String>,
    pub settlements: Vec<Settlement>,
}

/// The value of a [`Region`].
pub struct RegionView {
    pub title: Option<Seq<char>>,
    pub code: Option<Seq<char>>,
    pub settlements: Seq<SettlementView>,
}

impl View for Region {
    type V = RegionView;

    open spec fn view(&self) -> RegionView {
        RegionView {
            title: self.title.deep_view(),
            code: self.code.deep_view(),
            settlements: self.settlements.deep_view(),
        }
    }
}

impl DeepView for Region {
    type V = RegionView;

    open spec fn deep_view(&self) -> RegionView {
        self.view()
    }
}

/// A country: its own title and code, and the regions under it.
#[derive(Debug, Clone, PartialEq)]
pub struct Country {
    pub title: Option<String>,
    pub code: Option<String>,
    pub regions: Vec<Region>,
}

/// The value of a [`Country`].
pub struct CountryView {
    pub title: Option<Seq<char>>,
    pub code: Option<Seq<char>>,
    pub regions: Seq<RegionView>,
}

impl View for Country {
    type V = CountryView;

    open spec fn view(&self) -> CountryView {
        CountryView {
            title: self.title.deep_view(),
            code: self.code.deep_view(),
            regions: self.regions.deep_view(),
        }
    }
}

impl DeepView for Country {
    type V = CountryView;

    open spec fn deep_view(&self) -> CountryView {
        self.view()
    }
}

/// The whole directory payload: the countries the upstream returned.
#[derive(Debug, Clone, PartialEq)]
pub struct DirectoryPayload {
    pub countries: Vec<Country>,
}

/// The value of a [`DirectoryPayload`].
pub struct DirectoryPayloadView {
    pub countries: Seq<CountryView>,
}

impl View for DirectoryPayload {
    type V = DirectoryPayloadView;

    open spec fn view(&self) -> DirectoryPayloadView {
        DirectoryPayloadView { countries: self.countries.deep_view() }
    }
}

impl DeepView for DirectoryPayload {
    type V = DirectoryPayloadView;

    open spec fn deep_view(&self) -> DirectoryPayloadView {
        self.view()
    }
}

/// The ancestor context a station record inherits: the lineage of the
/// settlement it sits in.
#[derive(Debug, Clone, PartialEq)]
pub struct Lineage {
    pub country: String,
    pub country_code: String,
    pub region: String,
    pub region_code: String,
    pub settlement: String,
    pub settlement_code: String,
}

/// The value of a [`Lineage`].
pub struct LineageView {
    pub country: Seq<char>,
    pub country_code: Seq<char>,
    pub region: Seq<char>,
    pub region_code: Seq<char>,
    pub settlement: Seq<char>,
    pub settlement_code: Seq<char>,
}

impl View for Lineage {
    type V = LineageView;

    open spec fn view(&self) -> LineageView {
        LineageView {
            country: self.country@,
            country_code: self.country_code@,
            region: self.region@,
            region_code: self.region_code@,
            settlement: self.settlement@,
            settlement_code: self.settlement_code@,
        }
    }
}

/// An elided ancestor title or code becomes the empty string in a record's
/// lineage.
pub open spec fn text_or_empty(t: Option<Seq<char>>) -> Seq<char> {
    match t {
        Some(s) => s,
        None => Seq::empty(),
    }
}

/// What one station entity contributes: a record carrying the given
/// lineage if `title`, `station_type` and `yandex_code` are all present,
/// nothing otherwise.
pub open spec fn spec_project_station(st: StationEntityView, lin: LineageView) -> Option<
    StationRecordView,
> {
    match (st.title, st.station_type, st.yandex_code) {
        (Some(title), Some(station_type), Some(yandex_code)) => Some(
            StationRecordView {
                title,
                station_type,
                yandex_code,
                longitude: st.longitude,
                latitude: st.latitude,
                transport_type: st.transport_type,
                direction: st.direction,
                esr_code: st.esr_code,
                country: lin.country,
                country_code: lin.country_code,
                region: lin.region,
                region_code: lin.region_code,
                settlement: lin.settlement,
                settlement_code: lin.settlement_code,
            },
        ),
        _ => None,
    }
}

/// The records of one settlement's stations, in source order.
pub open spec fn spec_flatten_stations(
    stations: Seq<StationEntityView>,
    lin: LineageView,
) -> Seq<StationRecordView> {
    stations.filter_map(|st: StationEntityView| spec_project_station(st, lin))
}

/// The lineage a settlement passes to its stations.
pub open spec fn spec_settlement_lineage(
    s: SettlementView,
    country: Seq<char>,
    country_code: Seq<char>,
    region: Seq<char>,
    region_code: Seq<char>,
) -> LineageView {
    LineageView {
        country,
        country_code,
        region,
        region_code,
        settlement: text_or_empty(s.title),
        settlement_code: text_or_empty(s.code),
    }
}

/// The records of a region's settlements, in source order.
pub open spec fn spec_flatten_settlements(
    settlements: Seq<SettlementView>,
    country: Seq<char>,
    country_code: Seq<char>,
    region: Seq<char>,
    region_code: Seq<char>,
) -> Seq<StationRecordView> {
    settlements.map_values(
        |s: SettlementView|
            spec_flatten_stations(
                s.stations,
                spec_settlement_lineage(s, country, country_code, region, region_code),
            ),
    ).flatten()
}

/// The records of a country's regions, in source order.
pub open spec fn spec_flatten_regions(
    regions: Seq<RegionView>,
    country: Seq<char>,
    country_code: Seq<char>,
) -> Seq<StationRecordView> {
    regions.map_values(
        |r: RegionView|
            spec_flatten_settlements(
                r.settlements,
                country,
                country_code,
                text_or_empty(r.title),
                text_or_empty(r.code),
            ),
    ).flatten()
}

/// Every record of the payload, depth first, in source order.
pub open spec fn spec_flatten_payload(p: DirectoryPayloadView) -> Seq<StationRecordView> {
    p.countries.map_values(
        |c: CountryView|
            spec_flatten_regions(c.regions, text_or_empty(c.title), text_or_empty(c.code)),
    ).flatten()
}

/// Clones an optional text field, keeping present and absent apart.
fn clone_text(t: &Option<String>) -> (r: Option<String>)
    ensures
        r.deep_view() == t.deep_view(),
{
    match t {
        Some(s) => Some(s.clone()),
        None => None,
    }
}

/// The executable form of [`text_or_empty`].
fn string_or_empty(t: &Option<String>) -> (r: String)
    ensures
        r@ == text_or_empty(t.deep_view()),
{
    match t {
        Some(s) => s.clone(),
        None => String::new(),
    }
}

/// Projects one source station into a catalog record under the given
/// lineage, or nothing if a required field is missing.
pub fn project_station(st: &StationEntity, lin: &Lineage) -> (r: Option<StationRecord>)
    ensures
        r.deep_view() == spec_project_station(st@, lin@),
{
    match (&st.title, &st.station_type, &st.yandex_code) {
        (Some(title), Some(station_type), Some(yandex_code)) => Some(
            StationRecord {
                title: title.clone(),
                station_type: station_type.clone(),
                yandex_code: yandex_code.clone(),
                longitude: st.longitude,
                latitude: st.latitude,
                transport_type: clone_text(&st.transport_type),
                direction: clone_text(&st.direction),
                esr_code: clone_text(&st.esr_code),
                country: lin.country.clone(),
                country_code: lin.country_code.clone(),
                region: lin.region.clone(),
                region_code: lin.region_code.clone(),
                settlement: lin.settlement.clone(),
                settlement_code: lin.settlement_code.clone(),
            },
        ),
        _ => None,
    }
}

/// Taking one more station extends the flattening by that station's
/// contribution.
proof fn lemma_flatten_stations_take_succ(
    stations: Seq<StationEntityView>,
    lin: LineageView,
    i: int,
)
    requires
        0 <= i < stations.len(),
    ensures
        spec_flatten_stations(stations.take(i + 1), lin) == spec_flatten_stations(
            stations.take(i),
            lin,
        ) + (match spec_project_station(stations[i], lin) {
            Some(r) => seq![r],
            None => Seq::<StationRecordView>::empty(),
        }),
{
    let f = |st: StationEntityView| spec_project_station(st, lin);
    stations.lemma_filter_map_take_succ(f, i);
}

/// Taking one more element extends a mapped-and-flattened sequence by that
/// element's image.
proof fn lemma_map_flatten_take_succ<A, B>(s: Seq<A>, g: spec_fn(A) -> Seq<B>, i: int)
    requires
        0 <= i < s.len(),
    ensures
        s.take(i + 1).map_values(g).flatten() == s.take(i).map_values(g).flatten() + g(s[i]),
{
    assert(s.take(i + 1).map_values(g) =~= s.take(i).map_values(g).push(g(s[i])));
    s.take(i).map_values(g).lemma_flatten_push(g(s[i]));
}

/// The records of one settlement's stations, each carrying the lineage.
pub fn flatten_stations(stations: &Vec<StationEntity>, lin: &Lineage) -> (out: Vec<StationRecord>)
    ensures
        out.deep_view() == spec_flatten_stations(stations.deep_view(), lin@),
{
    let mut out: Vec<StationRecord> = Vec::new();
    let mut i: usize = 0;
    while i < stations.len()
        invariant
            i <= stations.len(),
            out.deep_view() == spec_flatten_stations(stations.deep_view().take(i as int), lin@),
        decreases stations.len() - i,
    {
        let ghost prev = out.deep_view();
        match project_station(&stations[i], lin) {
            Some(r) => {
                out.push(r);
                proof {
                    assert(out.deep_view() =~= prev.push(r@));
                }
            },
            None => {},
        }
        proof {
            lemma_flatten_stations_take_succ(stations.deep_view(), lin@, i as int);
            assert(out.deep_view() =~= spec_flatten_stations(
                stations.deep_view().take(i + 1 as int),
                lin@,
            ));
        }
        i = i + 1;
    }
    proof {
        assert(stations.deep_view().take(stations.len() as int) =~= stations.deep_view());
    }
    out
}

/// The records of a region's settlements.
pub fn flatten_settlements(
    settlements: &Vec<Settlement>,
    country: &String,
    country_code: &String,
    region: &String,
    region_code: &String,
) -> (out: Vec<StationRecord>)
    ensures
        out.deep_view() == spec_flatten_settlements(
            settlements.deep_view(),
            country@,
            country_code@,
            region@,
            region_code@,
        ),
{
    let ghost g = |s: SettlementView|
        spec_flatten_stations(
            s.stations,
            spec_settlement_lineage(s, country@, country_code@, region@, region_code@),
        );
    let mut out: Vec<StationRecord> = Vec::new();
    let mut i: usize = 0;
    while i < settlements.len()
        invariant
            i <= settlements.len(),
            g == (|s: SettlementView|
                spec_flatten_stations(
                    s.stations,
                    spec_settlement_lineage(s, country@, country_code@, region@, region_code@),
                )),
            out.deep_view() == settlements.deep_view().take(i as int).map_values(g).flatten(),
        decreases settlements.len() - i,
    {
        let s = &settlements[i];
        let lin = Lineage {
            country: country.clone(),
            country_code: country_code.clone(),
            region: region.clone(),
            region_code: region_code.clone(),
            settlement: string_or_empty(&s.title),
            settlement_code: string_or_empty(&s.code),
        };
        let ghost prev = out.deep_view();
        let mut part = flatten_stations(&s.stations, &lin);
        let ghost part_view = part.deep_view();
        out.append(&mut part);
        proof {
            assert(out.deep_view() =~= prev + part_view);
            assert(lin@ == spec_settlement_lineage(
                settlements.deep_view()[i as int],
                country@,
                country_code@,
                region@,
                region_code@,
            ));
            lemma_map_flatten_take_succ(settlements.deep_view(), g, i as int);
        }
        i = i + 1;
    }
    proof {
        assert(settlements.deep_view().take(settlements.len() as int) =~= settlements.deep_view());
    }
    out
}

/// The records of a country's regions.
pub fn flatten_regions(regions: &Vec<Region>, country: &String, country_code: &String) -> (out:
    Vec<StationRecord>)
    ensures
        out.deep_view() == spec_flatten_regions(regions.deep_view(), country@, country_code@),
{
    let ghost g = |r: RegionView|
        spec_flatten_settlements(
            r.settlements,
            country@,
            country_code@,
            text_or_empty(r.title),
            text_or_empty(r.code),
        );
    let mut out: Vec<StationRecord> = Vec::new();
    let mut i: usize = 0;
    while i < regions.len()
        invariant
            i <= regions.len(),
            g == (|r: RegionView|
                spec_flatten_settlements(
                    r.settlements,
                    country@,
                    country_code@,
                    text_or_empty(r.title),
                    text_or_empty(r.code),
                )),
            out.deep_view() == regions.deep_view().take(i as int).map_values(g).flatten(),
        decreases regions.len() - i,
    {
        let r = &regions[i];
        let region = string_or_empty(&r.title);
        let region_code = string_or_empty(&r.code);
        let ghost prev = out.deep_view();
        let mut part = flatten_settlements(&r.settlements, country, country_code, &region, &region_code);
        let ghost part_view = part.deep_view();
        out.append(&mut part);
        proof {
            assert(out.deep_view() =~= prev + part_view);
            lemma_map_flatten_take_succ(regions.deep_view(), g, i as int);
        }
        i = i + 1;
    }
    proof {
        assert(regions.deep_view().take(regions.len() as int) =~= regions.deep_view());
    }
    out
}

/// Flattens the whole directory payload into the catalog's records,
/// depth first, in source order.
pub fn flatten_payload(p: &DirectoryPayload) -> (out: Vec<StationRecord>)
    ensures
        out.deep_view() == spec_flatten_payload(p@),
{
    let ghost g = |c: CountryView|
        spec_flatten_regions(c.regions, text_or_empty(c.title), text_or_empty(c.code));
    let mut out: Vec<StationRecord> = Vec::new();
    let mut i: usize = 0;
    while i < p.countries.len()
        invariant
            i <= p.countries.len(),
            g == (|c: CountryView|
                spec_flatten_regions(c.regions, text_or_empty(c.title), text_or_empty(c.code))),
            out.deep_view() == p.countries.deep_view().take(i as int).map_values(g).flatten(),
        decreases p.countries.len() - i,
    {
        let c = &p.countries[i];
        let country = string_or_empty(&c.title);
        let country_code = string_or_empty(&c.code);
        let ghost prev = out.deep_view();
        let mut part = flatten_regions(&c.regions, &country, &country_code);
        let ghost part_view = part.deep_view();
        out.append(&mut part);
        proof {
            assert(out.deep_view() =~= prev + part_view);
            lemma_map_flatten_take_succ(p.countries.deep_view(), g, i as int);
        }
        i = i + 1;
    }
    proof {
        assert(p.countries.deep_view().take(p.countries.len() as int) =~= p.countries.deep_view());
    }
    out
}

/// A station entity qualifies for the catalog: its three required fields
/// are present.
pub open spec fn spec_station_qualifies(st: StationEntityView) -> bool {
    &&& st.title is Some
    &&& st.station_type is Some
    &&& st.yandex_code is Some
}

/// How many of a settlement's stations qualify.
pub open spec fn spec_qualifying_count(stations: Seq<StationEntityView>) -> int
    decreases stations.len(),
{
    if stations.len() == 0 {
        0int
    } else {
        spec_qualifying_count(stations.drop_last()) + (if spec_station_qualifies(stations.last()) {
            1int
        } else {
            0int
        })
    }
}

/// Exactly one record per qualifying station: flattening a settlement's
/// stations emits as many records as stations qualify — no entity is
/// duplicated and none is added.
pub proof fn lemma_flatten_stations_count(stations: Seq<StationEntityView>, lin: LineageView)
    ensures
        spec_flatten_stations(stations, lin).len() == spec_qualifying_count(stations),
    decreases stations.len(),
{
    if stations.len() > 0 {
        lemma_flatten_stations_count(stations.drop_last(), lin);
    }
}

/// An element of one part lies in the flattened whole.
proof fn lemma_flatten_mem_intro<A>(s: Seq<Seq<A>>, i: int, x: A)
    requires
        0 <= i < s.len(),
        s[i].contains(x),
    ensures
        s.flatten().contains(x),
    decreases i,
{
    if i == 0 {
        let j = choose|j: int| 0 <= j < s[0].len() && s[0][j] == x;
        assert(s.flatten()[j] == x);
    } else {
        lemma_flatten_mem_intro(s.drop_first(), i - 1, x);
        let rest = s.drop_first().flatten();
        let j = choose|j: int| 0 <= j < rest.len() && rest[j] == x;
        assert(s.flatten()[s.first().len() + j] == x);
    }
}

/// The image of a qualifying element lies in the filter-mapped sequence.
proof fn lemma_filter_map_intro<A, B>(s: Seq<A>, f: spec_fn(A) -> Option<B>, l: int, b: B)
    requires
        0 <= l < s.len(),
        f(s[l]) == Some(b),
    ensures
        s.filter_map(f).contains(b),
    decreases s.len(),
{
    let sub = s.drop_last().filter_map(f);
    if l == s.len() - 1 {
        assert(s.filter_map(f)[sub.len() as int] == b);
    } else {
        lemma_filter_map_intro(s.drop_last(), f, l, b);
        let j = choose|j: int| 0 <= j < sub.len() && sub[j] == b;
        assert(s.filter_map(f)[j] == b);
    }
}

/// An element of a flattened sequence of sequences lies in one of the parts.
proof fn lemma_flatten_mem<A>(s: Seq<Seq<A>>, x: A)
    requires
        s.flatten().contains(x),
    ensures
        exists|i: int| 0 <= i < s.len() && (#[trigger] s[i]).contains(x),
    decreases s.len(),
{
    if s.len() == 0 {
    } else {
        let j = choose|j: int| 0 <= j < s.flatten().len() && s.flatten()[j] == x;
        if j < s.first().len() {
            assert(s[0].contains(x));
        } else {
            assert(s.drop_first().flatten().contains(x));
            lemma_flatten_mem(s.drop_first(), x);
            let i = choose|i: int|
                0 <= i < s.drop_first().len() && (#[trigger] s.drop_first()[i]).contains(x);
            assert(s[i + 1].contains(x));
        }
    }
}

/// A record emitted for a settlement's stations comes from one of them.
proof fn lemma_flatten_stations_mem(
    stations: Seq<StationEntityView>,
    lin: LineageView,
    rec: StationRecordView,
)
    requires
        spec_flatten_stations(stations, lin).contains(rec),
    ensures
        exists|l: int|
            0 <= l < stations.len() && spec_project_station(#[trigger] stations[l], lin) == Some(
                rec,
            ),
{
    let f = |st: StationEntityView| spec_project_station(st, lin);
    stations.lemma_filter_map_contains(f, rec);
    let st = choose|st: StationEntityView| #[trigger] stations.contains(st) && f(st) == Some(rec);
    let l = choose|l: int| 0 <= l < stations.len() && stations[l] == st;
    assert(spec_project_station(stations[l], lin) == Some(rec));
}

/// Record `rec` is what the normalizer emits for station `l` of settlement
/// `k` of region `j` of country `i`: its lineage fields are exactly the
/// titles and codes of those ancestors, and the source station carries all
/// three required fields, with the record's values.
pub open spec fn emitted_at(
    p: DirectoryPayloadView,
    rec: StationRecordView,
    i: int,
    j: int,
    k: int,
    l: int,
) -> bool {
    &&& 0 <= i < p.countries.len()
    &&& 0 <= j < p.countries[i].regions.len()
    &&& 0 <= k < p.countries[i].regions[j].settlements.len()
    &&& 0 <= l < p.countries[i].regions[j].settlements[k].stations.len()
    &&& rec.country == text_or_empty(p.countries[i].title)
    &&& rec.country_code == text_or_empty(p.countries[i].code)
    &&& rec.region == text_or_empty(p.countries[i].regions[j].title)
    &&& rec.region_code == text_or_empty(p.countries[i].regions[j].code)
    &&& rec.settlement == text_or_empty(p.countries[i].regions[j].settlements[k].title)
    &&& rec.settlement_code == text_or_empty(p.countries[i].regions[j].settlements[k].code)
    &&& p.countries[i].regions[j].settlements[k].stations[l].title == Some(rec.title)
    &&& p.countries[i].regions[j].settlements[k].stations[l].station_type == Some(rec.station_type)
    &&& p.countries[i].regions[j].settlements[k].stations[l].yandex_code == Some(rec.yandex_code)
}

/// Flattening law: every record the normalizer emits carries in its lineage
/// fields exactly the title and code of its ancestors at each level, and
/// stems from a source station whose `title`, `station_type` and
/// `yandex_code` are all present — an entity missing one of them never
/// appears in the output.
pub proof fn lemma_flatten_lineage(p: DirectoryPayloadView, rec: StationRecordView)
    requires
        spec_flatten_payload(p).contains(rec),
    ensures
        exists|i: int, j: int, k: int, l: int| #[trigger] emitted_at(p, rec, i, j, k, l),
{
    let gc = |c: CountryView|
        spec_flatten_regions(c.regions, text_or_empty(c.title), text_or_empty(c.code));
    lemma_flatten_mem(p.countries.map_values(gc), rec);
    let i = choose|i: int|
        0 <= i < p.countries.len() && (#[trigger] p.countries.map_values(gc)[i]).contains(rec);
    let c = p.countries[i];
    let country = text_or_empty(c.title);
    let country_code = text_or_empty(c.code);

    let gr = |r: RegionView|
        spec_flatten_settlements(
            r.settlements,
            country,
            country_code,
            text_or_empty(r.title),
            text_or_empty(r.code),
        );
    lemma_flatten_mem(c.regions.map_values(gr), rec);
    let j = choose|j: int|
        0 <= j < c.regions.len() && (#[trigger] c.regions.map_values(gr)[j]).contains(rec);
    let r = c.regions[j];
    let region = text_or_empty(r.title);
    let region_code = text_or_empty(r.code);

    let gs = |s: SettlementView|
        spec_flatten_stations(
            s.stations,
            spec_settlement_lineage(s, country, country_code, region, region_code),
        );
    lemma_flatten_mem(r.settlements.map_values(gs), rec);
    let k = choose|k: int|
        0 <= k < r.settlements.len() && (#[trigger] r.settlements.map_values(gs)[k]).contains(rec);
    let s = r.settlements[k];

    let lin = spec_settlement_lineage(s, country, country_code, region, region_code);
    lemma_flatten_stations_mem(s.stations, lin, rec);
    let l = choose|l: int|
        0 <= l < s.stations.len() && spec_project_station(#[trigger] s.stations[l], lin) == Some(
            rec,
        );
    assert(emitted_at(p, rec, i, j, k, l));
}

/// Flattening completeness, the converse of [`lemma_flatten_lineage`]:
/// every station entity whose three required fields are present yields its
/// record — required fields, optional fields and the ancestors' lineage —
/// in the payload's flattening.  With [`lemma_flatten_stations_count`]
/// (one record per qualifying entity) this settles that an entity is
/// projected exactly when it qualifies.
pub proof fn lemma_flatten_completeness(p: DirectoryPayloadView, i: int, j: int, k: int, l: int)
    requires
        0 <= i < p.countries.len(),
        0 <= j < p.countries[i].regions.len(),
        0 <= k < p.countries[i].regions[j].settlements.len(),
        0 <= l < p.countries[i].regions[j].settlements[k].stations.len(),
        spec_station_qualifies(p.countries[i].regions[j].settlements[k].stations[l]),
    ensures
        ({
            let c = p.countries[i];
            let r = c.regions[j];
            let s = r.settlements[k];
            let lin = spec_settlement_lineage(
                s,
                text_or_empty(c.title),
                text_or_empty(c.code),
                text_or_empty(r.title),
                text_or_empty(r.code),
            );
            &&& spec_project_station(s.stations[l], lin) is Some
            &&& spec_flatten_payload(p).contains(spec_project_station(s.stations[l], lin)->Some_0)
            &&& emitted_at(p, spec_project_station(s.stations[l], lin)->Some_0, i, j, k, l)
        }),
{
    let c = p.countries[i];
    let country = text_or_empty(c.title);
    let country_code = text_or_empty(c.code);
    let r = c.regions[j];
    let region = text_or_empty(r.title);
    let region_code = text_or_empty(r.code);
    let s = r.settlements[k];
    let lin = spec_settlement_lineage(s, country, country_code, region, region_code);
    let rec = spec_project_station(s.stations[l], lin)->Some_0;

    let fs = |st: StationEntityView| spec_project_station(st, lin);
    lemma_filter_map_intro(s.stations, fs, l, rec);
    assert(spec_flatten_stations(s.stations, lin).contains(rec));

    let gs = |s2: SettlementView|
        spec_flatten_stations(
            s2.stations,
            spec_settlement_lineage(s2, country, country_code, region, region_code),
        );
    assert(r.settlements.map_values(gs)[k] == spec_flatten_stations(s.stations, lin));
    lemma_flatten_mem_intro(r.settlements.map_values(gs), k, rec);
    assert(spec_flatten_settlements(r.settlements, country, country_code, region, region_code)
        .contains(rec));

    let gr = |r2: RegionView|
        spec_flatten_settlements(
            r2.settlements,
            country,
            country_code,
            text_or_empty(r2.title),
            text_or_empty(r2.code),
        );
    assert(c.regions.map_values(gr)[j] == spec_flatten_settlements(
        r.settlements,
        country,
        country_code,
        region,
        region_code,
    ));
    lemma_flatten_mem_intro(c.regions.map_values(gr), j, rec);
    assert(spec_flatten_regions(c.regions, country, country_code).contains(rec));

    let gc = |c2: CountryView|
        spec_flatten_regions(c2.regions, text_or_empty(c2.title), text_or_empty(c2.code));
    assert(p.countries.map_values(gc)[i] == spec_flatten_regions(c.regions, country, country_code));
    lemma_flatten_mem_intro(p.countries.map_values(gc), i, rec);
}

} // verus!
