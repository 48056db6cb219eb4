use station_catalog::directory::{
    flatten_payload, flatten_stations, project_station, Country, DirectoryPayload, Lineage, Region,
    Settlement, StationEntity,
};

fn lineage(
    country: &str,
    country_code: &str,
    region: &str,
    region_code: &str,
    settlement: &str,
    settlement_code: &str,
) -> Lineage {
    Lineage {
        country: country.to_string(),
        country_code: country_code.to_string(),
        region: region.to_string(),
        region_code: region_code.to_string(),
        settlement: settlement.to_string(),
        settlement_code: settlement_code.to_string(),
    }
}

fn full_station(title: &str, code: &str) -> StationEntity {
    StationEntity {
        title: Some(title.to_string()),
        station_type: Some("train_station".to_string()),
        yandex_code: Some(code.to_string()),
        esr_code: Some("198506".to_string()),
        transport_type: Some("train".to_string()),
        direction: None,
        longitude: Some(37.5_f64.to_bits()),
        latitude: Some(55.75_f64.to_bits()),
    }
}

#[test]
fn projection_keeps_complete_station() {
    let lin = lineage("Russia", "l225", "Moscow area", "l1", "Moscow", "c213");
    let rec = project_station(&full_station("Kursky", "s2000001"), &lin).unwrap();
    assert_eq!(rec.title, "Kursky");
    assert_eq!(rec.station_type, "train_station");
    assert_eq!(rec.yandex_code, "s2000001");
    assert_eq!(rec.esr_code.as_deref(), Some("198506"));
    assert_eq!(rec.transport_type.as_deref(), Some("train"));
    assert_eq!(rec.direction, None);
    assert_eq!(rec.longitude, Some(37.5_f64.to_bits()));
    assert_eq!(rec.latitude, Some(55.75_f64.to_bits()));
    assert_eq!(rec.country, "Russia");
    assert_eq!(rec.country_code, "l225");
    assert_eq!(rec.region, "Moscow area");
    assert_eq!(rec.region_code, "l1");
    assert_eq!(rec.settlement, "Moscow");
    assert_eq!(rec.settlement_code, "c213");
}

#[test]
fn projection_drops_station_missing_a_required_field() {
    let lin = lineage("", "", "", "", "", "");
    let mut no_title = full_station("x", "s1");
    no_title.title = None;
    assert!(project_station(&no_title, &lin).is_none());

    let mut no_type = full_station("x", "s1");
    no_type.station_type = None;
    assert!(project_station(&no_type, &lin).is_none());

    let mut no_code = full_station("x", "s1");
    no_code.yandex_code = None;
    assert!(project_station(&no_code, &lin).is_none());
}

#[test]
fn projection_keeps_absent_and_empty_apart() {
    let lin = lineage("", "", "", "", "", "");
    let mut st = full_station("x", "s1");
    st.transport_type = Some(String::new());
    st.direction = None;
    let rec = project_station(&st, &lin).unwrap();
    assert_eq!(rec.transport_type, Some(String::new()));
    assert_eq!(rec.direction, None);
}

#[test]
fn flatten_stations_keeps_source_order() {
    let lin = lineage("Russia", "l225", "R", "l1", "S", "c1");
    let stations = vec![
        full_station("A", "s1"),
        full_station("B", "s2"),
        full_station("C", "s3"),
    ];
    let recs = flatten_stations(&stations, &lin);
    let titles: Vec<&str> = recs.iter().map(|r| r.title.as_str()).collect();
    assert_eq!(titles, vec!["A", "B", "C"]);
}

// Two countries, one region each, one settlement each, three stations in
// all, one lacking its yandex_code: exactly the two complete stations come
// out, each under its own country's lineage.
#[test]
fn flatten_two_countries_three_stations_one_incomplete() {
    let mut broken = full_station("Broken", "unused");
    broken.yandex_code = None;
    let payload = DirectoryPayload {
        countries: vec![
            Country {
                title: Some("Russia".to_string()),
                code: Some("l225".to_string()),
                regions: vec![Region {
                    title: Some("Moscow area".to_string()),
                    code: Some("l1".to_string()),
                    settlements: vec![Settlement {
                        title: Some("Moscow".to_string()),
                        code: Some("c213".to_string()),
                        stations: vec![full_station("Kursky", "s2000001"), broken],
                    }],
                }],
            },
            Country {
                title: Some("Belarus".to_string()),
                code: Some("l149".to_string()),
                regions: vec![Region {
                    title: Some("Minsk area".to_string()),
                    code: Some("l7".to_string()),
                    settlements: vec![Settlement {
                        title: Some("Minsk".to_string()),
                        code: Some("c157".to_string()),
                        stations: vec![full_station("Minsk-Pass", "s9600000")],
                    }],
                }],
            },
        ],
    };
    let recs = flatten_payload(&payload);
    assert_eq!(recs.len(), 2);
    assert_eq!(recs[0].title, "Kursky");
    assert_eq!(recs[0].country, "Russia");
    assert_eq!(recs[0].country_code, "l225");
    assert_eq!(recs[0].region, "Moscow area");
    assert_eq!(recs[0].settlement, "Moscow");
    assert_eq!(recs[0].settlement_code, "c213");
    assert_eq!(recs[1].title, "Minsk-Pass");
    assert_eq!(recs[1].country, "Belarus");
    assert_eq!(recs[1].country_code, "l149");
    assert_eq!(recs[1].region, "Minsk area");
    assert_eq!(recs[1].settlement, "Minsk");
}

#[test]
fn flatten_elided_levels_contribute_nothing() {
    let payload = DirectoryPayload {
        countries: vec![
            Country { title: Some("Empty".to_string()), code: None, regions: vec![] },
            Country {
                title: None,
                code: None,
                regions: vec![Region {
                    title: None,
                    code: None,
                    settlements: vec![
                        Settlement { title: None, code: None, stations: vec![] },
                        Settlement {
                            title: None,
                            code: None,
                            stations: vec![full_station("Lone", "s1")],
                        },
                    ],
                }],
            },
        ],
    };
    let recs = flatten_payload(&payload);
    assert_eq!(recs.len(), 1);
    assert_eq!(recs[0].title, "Lone");
    // Elided ancestor titles and codes become empty lineage strings.
    assert_eq!(recs[0].country, "");
    assert_eq!(recs[0].country_code, "");
    assert_eq!(recs[0].region, "");
    assert_eq!(recs[0].region_code, "");
    assert_eq!(recs[0].settlement, "");
    assert_eq!(recs[0].settlement_code, "");
}
