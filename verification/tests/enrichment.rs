use station_catalog::enrich::{collect_results, extract_station_data, tally_completion, EnrichmentResult};

fn station_page(title: Option<&str>, address: Option<&str>) -> String {
    let title_div = title
        .map(|t| format!("<div class=\"header-custom__title\">{}</div>", t))
        .unwrap_or_default();
    let address_div = address
        .map(|a| format!("<div class=\"header-custom__note\">{}</div>", a))
        .unwrap_or_default();
    format!(
        "<html><body><div class=\"body-content\"><header>\
         <div class=\"bread-crumbs-menu bread-crumbs-menu-img bread-crumbs-menu-img_index\">\
         <section>{}{}</section>\
         </div></header></div></body></html>",
        title_div, address_div
    )
}

fn result(id: u32) -> EnrichmentResult {
    EnrichmentResult {
        station_id: id,
        title: format!("title{}", id),
        address: format!("address{}", id),
    }
}

#[test]
fn page_with_both_nodes_yields_a_result() {
    let html = station_page(Some("Kursky <b>station</b>"), Some("Moscow, Zemlyanoy Val 29"));
    let data = extract_station_data(7, &html).unwrap();
    assert_eq!(data.station_id, 7);
    // The selector picks the node's concatenated text, not the raw page.
    assert_eq!(data.title, "Kursky station");
    assert_eq!(data.address, "Moscow, Zemlyanoy Val 29");
}

#[test]
fn page_missing_a_node_yields_nothing() {
    assert!(extract_station_data(1, &station_page(Some("T"), None)).is_none());
    assert!(extract_station_data(2, &station_page(None, Some("A"))).is_none());
    assert!(extract_station_data(3, &station_page(None, None)).is_none());
    assert!(extract_station_data(4, "not html at all").is_none());
}

#[test]
fn nodes_outside_the_fixed_structure_are_not_picked() {
    // The right class names, but not under the expected ancestors.
    let html = "<html><body><section>\
                <div class=\"header-custom__title\">T</div>\
                <div class=\"header-custom__note\">A</div>\
                </section></body></html>";
    assert!(extract_station_data(5, html).is_none());
}

// Five identifiers, three of which resolved: the aggregate has exactly the
// three successes, whatever order they completed in.
#[test]
fn aggregation_keeps_exactly_the_successes() {
    let one_order = vec![Some(result(1)), None, Some(result(3)), None, Some(result(5))];
    let other_order = vec![None, Some(result(5)), Some(result(3)), Some(result(1)), None];

    let collected = collect_results(one_order);
    assert_eq!(collected.len(), 3);
    assert_eq!(collected[0], result(1));
    assert_eq!(collected[1], result(3));
    assert_eq!(collected[2], result(5));

    assert_eq!(collect_results(other_order).len(), 3);
}

#[test]
fn aggregation_of_nothing_is_empty() {
    assert_eq!(collect_results(vec![]).len(), 0);
    assert_eq!(collect_results(vec![None, None]).len(), 0);
}

#[test]
fn every_tenth_completion_reports_progress() {
    assert_eq!(tally_completion(0), (1, false));
    assert_eq!(tally_completion(9), (10, true));
    assert_eq!(tally_completion(10), (11, false));
    assert_eq!(tally_completion(99), (100, true));
}
