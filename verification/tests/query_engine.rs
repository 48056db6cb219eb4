use station_catalog::params::{parse_query, query_stations};
use station_catalog::query::{
    apply_filters, execute_query, matches_filters, page_slice, total_pages, Filters,
};
use station_catalog::record::StationRecord;

fn record(title: &str, station_type: &str, country: &str) -> StationRecord {
    StationRecord {
        title: title.to_string(),
        station_type: station_type.to_string(),
        yandex_code: format!("s-{}", title),
        longitude: None,
        latitude: None,
        transport_type: None,
        direction: None,
        esr_code: None,
        country: country.to_string(),
        country_code: String::new(),
        region: String::new(),
        region_code: String::new(),
        settlement: String::new(),
        settlement_code: String::new(),
    }
}

fn twelve_records() -> Vec<StationRecord> {
    (0..12).map(|i| record(&format!("station{}", i), "train_station", "Russia")).collect()
}

#[test]
fn total_pages_rounds_the_last_page_up() {
    assert_eq!(total_pages(12, 5), 3);
    assert_eq!(total_pages(10, 5), 2);
    assert_eq!(total_pages(1, 5), 1);
    assert_eq!(total_pages(0, 5), 0);
    assert_eq!(total_pages(7, 1), 7);
    assert_eq!(total_pages(u64::MAX, 1), u64::MAX);
}

// page=2&page_size=5 over 12 matching records: the response shows records
// 5 through 9 (0-indexed: skip 5, limit 5) and three pages in all.
#[test]
fn second_page_of_five_over_twelve() {
    let q = parse_query("page=2&page_size=5");
    assert_eq!(q.page, 2);
    assert_eq!(q.page_size, 5);
    let resp = execute_query(twelve_records(), q.page, q.page_size, &q.filters);
    assert_eq!(resp.total_pages, 3);
    assert_eq!(resp.current_page, 2);
    let titles: Vec<&str> = resp.stations.iter().map(|r| r.title.as_str()).collect();
    assert_eq!(titles, vec!["station5", "station6", "station7", "station8", "station9"]);
}

#[test]
fn page_beyond_the_bound_is_empty_but_valid() {
    let resp = execute_query(twelve_records(), 4, 5, &Filters::none());
    assert_eq!(resp.stations.len(), 0);
    assert_eq!(resp.total_pages, 3);
    assert_eq!(resp.current_page, 4);

    let far = execute_query(twelve_records(), u64::MAX, u64::MAX, &Filters::none());
    assert_eq!(far.stations.len(), 0);
    assert_eq!(far.total_pages, 1);
}

#[test]
fn last_partial_page_is_clipped() {
    let out = page_slice(twelve_records(), 3, 5);
    let titles: Vec<&str> = out.iter().map(|r| r.title.as_str()).collect();
    assert_eq!(titles, vec!["station10", "station11"]);
}

#[test]
fn unknown_keys_are_ignored_and_bad_numbers_fall_back() {
    let q = parse_query("foo=bar&page=abc");
    assert_eq!(q.page, 1);
    assert_eq!(q.page_size, 10);
    assert_eq!(q.filters, Filters::none());
}

#[test]
fn zero_page_size_falls_back_to_the_default() {
    let q = parse_query("page=0&page_size=0");
    assert_eq!(q.page, 1);
    assert_eq!(q.page_size, 10);
}

#[test]
fn parser_takes_filters_and_ignores_malformed_tokens() {
    let q = parse_query("station_type=bus_station&country=Russia&novalue&a=b=c&=&page_size=25");
    assert_eq!(q.page, 1);
    assert_eq!(q.page_size, 25);
    assert_eq!(q.filters.station_type.as_deref(), Some("bus_station"));
    assert_eq!(q.filters.country.as_deref(), Some("Russia"));
    assert_eq!(q.filters.transport_type, None);
    assert_eq!(q.filters.region, None);
    // "=" is a token whose key and value are both empty: not a recognized
    // key, so it changes nothing; "a=b=c" and "novalue" are malformed.
    assert_eq!(q.filters.settlement, None);
}

#[test]
fn empty_query_string_gives_the_defaults() {
    let q = parse_query("");
    assert_eq!(q.page, 1);
    assert_eq!(q.page_size, 10);
    assert_eq!(q.filters, Filters::none());
}

#[test]
fn huge_numbers_fall_back_to_defaults() {
    // One past u64::MAX does not parse; u64::MAX itself does.
    let q = parse_query("page=18446744073709551616&page_size=18446744073709551615");
    assert_eq!(q.page, 1);
    assert_eq!(q.page_size, u64::MAX);
}

#[test]
fn later_tokens_override_earlier_ones() {
    let q = parse_query("page=7&page=2&country=Russia&country=Belarus");
    assert_eq!(q.page, 2);
    assert_eq!(q.filters.country.as_deref(), Some("Belarus"));
}

#[test]
fn filters_compose_by_conjunction() {
    let mut records = vec![
        record("a", "train_station", "Russia"),
        record("b", "bus_station", "Russia"),
        record("c", "train_station", "Belarus"),
    ];
    records[0].transport_type = Some("train".to_string());

    let both = Filters {
        station_type: Some("train_station".to_string()),
        transport_type: None,
        country: Some("Russia".to_string()),
        region: None,
        settlement: None,
    };
    assert!(matches_filters(&records[0], &both));
    assert!(!matches_filters(&records[1], &both)); // wrong station_type
    assert!(!matches_filters(&records[2], &both)); // wrong country
    let kept = apply_filters(records.clone(), &both);
    assert_eq!(kept.len(), 1);
    assert_eq!(kept[0].title, "a");

    // An unsupplied key imposes no constraint.
    let none = Filters::none();
    assert_eq!(apply_filters(records.clone(), &none).len(), 3);

    // A filter on an optional field wants that exact present value; a
    // record without the field does not match.
    let transport = Filters {
        station_type: None,
        transport_type: Some("train".to_string()),
        country: None,
        region: None,
        settlement: None,
    };
    let kept = apply_filters(records, &transport);
    assert_eq!(kept.len(), 1);
    assert_eq!(kept[0].title, "a");
}

#[test]
fn raw_query_string_end_to_end() {
    let resp = query_stations(twelve_records(), "page=3&page_size=5&country=Russia");
    assert_eq!(resp.total_pages, 3);
    assert_eq!(resp.current_page, 3);
    let titles: Vec<&str> = resp.stations.iter().map(|r| r.title.as_str()).collect();
    assert_eq!(titles, vec!["station10", "station11"]);

    let none = query_stations(twelve_records(), "country=Atlantis");
    assert_eq!(none.total_pages, 0);
    assert_eq!(none.stations.len(), 0);
    assert_eq!(none.current_page, 1);
}

#[test]
fn filtering_composes_with_pagination() {
    let mut records = twelve_records();
    for (i, r) in records.iter_mut().enumerate() {
        if i % 2 == 0 {
            r.station_type = "bus_station".to_string();
        }
    }
    let q = parse_query("station_type=bus_station&page=2&page_size=4");
    let resp = execute_query(records, q.page, q.page_size, &q.filters);
    // Six records match; page 2 of size 4 shows the last two.
    assert_eq!(resp.total_pages, 2);
    let titles: Vec<&str> = resp.stations.iter().map(|r| r.title.as_str()).collect();
    assert_eq!(titles, vec!["station8", "station10"]);
}
