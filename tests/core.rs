use ogcapi::crs::{format_crs, parse_srid, resolve_srid, DEFAULT_SRID};
use ogcapi::features::{finish_feature, finish_listing, Asset, AssetRole, Assets, Feature, FeatureCollection, FeatureType};
use ogcapi::links::{choose_href, has_scheme, insert_or_update, resolve_href, resolve_relative_links, Link};
use ogcapi::listing::{page_links, page_query};
use ogcapi::pagination::paginate;
use ogcapi::collections::{check_new_collection, finish_collection_links};
use ogcapi::query::{clamp_limit, is_number_text, make_envelope, split_ordinates, supported_srids, translate, CollectionInfo, Query, QueryError};
use ogcapi::stac::{catalog, stac_version};
use ogcapi::store::{
    collection_token, count_parameters, count_statement, delete_statement, feature_path, insert_statement, is_safe_identifier,
    list_parameters, page_statement, resource_hrefs, select_statement, update_outcome, update_statement, Param,
    StoreError,
};
use ogcapi::styles::{Style, Styles, Stylesheet};

fn texts(v: &[&str]) -> Vec<String> {
    v.iter().map(|s| s.to_string()).collect()
}

fn query(bbox: Option<&[&str]>, bbox_crs: Option<&str>, crs: Option<&str>, limit: Option<u64>, offset: Option<u64>) -> Query {
    Query {
        bbox: bbox.map(texts),
        bbox_crs: bbox_crs.map(|s| s.to_string()),
        crs: crs.map(|s| s.to_string()),
        limit,
        offset,
        filter: Vec::new(),
    }
}

fn countries() -> CollectionInfo {
    CollectionInfo { id: "countries".to_string(), crs: vec![4326, 3857, 2056], storage_srid: 4326 }
}

fn feature(id: &str) -> Feature {
    Feature {
        id: Some(id.to_string()),
        collection: None,
        feature_type: FeatureType::Feature,
        properties: Some("{\"NAME\":\"Switzerland\"}".to_string()),
        geometry: "{\"type\":\"Point\",\"coordinates\":[7.5,47.0]}".to_string(),
        links: Vec::new(),
        assets: Assets::new(),
        extra: Some("{\"version\":\"3\"}".to_string()),
    }
}

fn rels(links: &[Link]) -> Vec<String> {
    links.iter().map(|l| l.rel.clone()).collect()
}

#[test]
fn stac_constants() {
    assert_eq!(stac_version(), "1.0.0");
    assert_eq!(catalog(), "Catalog");
}

#[test]
fn crs_identifiers_resolve() {
    assert_eq!(parse_srid("4326"), Some(4326));
    assert_eq!(parse_srid("EPSG:2056"), Some(2056));
    assert_eq!(parse_srid("http://www.opengis.net/def/crs/EPSG/0/3857"), Some(3857));
    assert_eq!(parse_srid("http://www.opengis.net/def/crs/OGC/1.3/CRS84"), Some(4326));
    assert_eq!(parse_srid("http://www.opengis.net/def/crs/EPSG/0/"), None);
    assert_eq!(parse_srid("abc"), None);
    assert_eq!(parse_srid("99999999999"), None);
    assert_eq!(parse_srid("4294967295"), Some(4294967295));
    assert_eq!(parse_srid("4294967296"), None);
}

#[test]
fn crs_fails_soft_to_default() {
    assert_eq!(resolve_srid(None), DEFAULT_SRID);
    assert_eq!(resolve_srid(Some("not a crs")), 4326);
    assert_eq!(resolve_srid(Some("2056")), 2056);
}

#[test]
fn crs_format_round_trips() {
    assert_eq!(format_crs(4326), "http://www.opengis.net/def/crs/OGC/1.3/CRS84");
    assert_eq!(format_crs(2056), "http://www.opengis.net/def/crs/EPSG/0/2056");
    for srid in [0u32, 7, 10, 3857, 2056, 4326, 900913, u32::MAX] {
        assert_eq!(parse_srid(&format_crs(srid)), Some(srid));
    }
}

#[test]
fn limit_clamping() {
    assert_eq!(clamp_limit(Some(50000)), 10000);
    assert_eq!(clamp_limit(Some(10000)), 10000);
    assert_eq!(clamp_limit(None), 100);
    assert_eq!(clamp_limit(Some(0)), 1);
    assert_eq!(clamp_limit(Some(25)), 25);
}

#[test]
fn translate_limit_and_offset_defaults() {
    let plan = translate(&query(None, None, None, Some(50000), None), &countries()).unwrap();
    assert_eq!(plan.limit, 10000);
    assert_eq!(plan.offset, 0);
    let plan = translate(&query(None, None, None, None, Some(30)), &countries()).unwrap();
    assert_eq!(plan.limit, 100);
    assert_eq!(plan.offset, 30);
    assert_eq!(plan.output_srid, 4326);
    assert_eq!(plan.collection, "countries");
    assert!(plan.envelope.is_none());
}

#[test]
fn pagination_prev_and_next() {
    let p = paginate(10, 0, 25);
    assert_eq!((p.prev, p.next), (None, Some(10)));
    let p = paginate(10, 10, 25);
    assert_eq!((p.prev, p.next), (Some(0), Some(20)));
    let p = paginate(10, 20, 25);
    assert_eq!((p.prev, p.next), (Some(10), None));
    let p = paginate(10, 5, 100);
    assert_eq!((p.prev, p.next), (None, Some(15)));
    let p = paginate(10, 10, 20);
    assert_eq!(p.next, None);
    let p = paginate(u64::MAX, u64::MAX, u64::MAX);
    assert_eq!((p.prev, p.next), (Some(0), None));
}

#[test]
fn pagination_next_then_prev_returns() {
    for (limit, offset, matched) in [(10u64, 0u64, 25u64), (3, 7, 100), (100, 200, 301)] {
        let next = paginate(limit, offset, matched).next.unwrap();
        assert_eq!(paginate(limit, next, matched).prev, Some(offset));
    }
}

#[test]
fn links_insert_or_update_idempotent() {
    let mut links = vec![Link::new("a", "self").mediatype("text/html"), Link::new("b", "alternate")];
    let batch = vec![
        Link::new("x", "self").mediatype("application/geo+json"),
        Link::new("y", "root"),
        Link::new("z", "collection"),
    ];
    insert_or_update(&mut links, &batch);
    assert_eq!(rels(&links), vec!["self", "alternate", "self", "root", "collection"]);
    assert_eq!(links[0].href, "a");
    assert_eq!(links[2].href, "x");
    let once = links.len();
    insert_or_update(&mut links, &batch);
    assert_eq!(links.len(), once);
    insert_or_update(&mut links, &vec![Link::new("w", "self").mediatype("text/html")]);
    assert_eq!(links.len(), once);
    assert_eq!(links[0].href, "w");
    assert_eq!(links[2].href, "x");
}

#[test]
fn relative_links_resolve() {
    assert_eq!(resolve_href("http://h/api", "items/1"), "http://h/items/1");
    assert_eq!(resolve_href("http://h/api/", "items/1"), "http://h/api/items/1");
    assert_eq!(resolve_href("http://h/a/b/c", "../x"), "http://h/a/x");
    assert_eq!(resolve_href("http://h/a/b", "/root"), "http://h/root");
    assert_eq!(resolve_href("http://h/api", "https://o/x"), "https://o/x");
    assert_eq!(resolve_href("http://h/api", "ftp://x"), "ftp://x");
    assert_eq!(resolve_href("http://h/api", "urn:ogc:def"), "urn:ogc:def");
    assert_eq!(resolve_href("not a url", "items"), "items");
    assert_eq!(choose_href("items", Some("http://h/items".to_string())), "http://h/items");
    assert_eq!(choose_href("items", None), "items");
    assert_eq!(choose_href("s3://b/k", Some("other".to_string())), "s3://b/k");
    assert!(has_scheme("s3://bucket"));
    assert!(has_scheme("a+b.c-d:x"));
    assert!(!has_scheme("1abc:x"));
    assert!(!has_scheme("../x:y"));
    assert!(!has_scheme("items"));
    let mut links = vec![Link::new("collections", "data").title("Collections"), Link::new("ftp://o/c", "root")];
    resolve_relative_links(&mut links, "http://h/");
    assert_eq!(links[0].href, "http://h/collections");
    assert_eq!(links[0].title.as_deref(), Some("Collections"));
    assert_eq!(links[1].href, "ftp://o/c");
}

#[test]
fn bbox_validation() {
    assert!(is_number_text("6"));
    assert!(is_number_text("-7.25"));
    assert!(is_number_text("+46.0"));
    assert!(!is_number_text("1.2.3"));
    assert!(!is_number_text("."));
    assert!(!is_number_text("6."));
    assert!(!is_number_text("1;DROP"));
    assert!(!is_number_text(""));
    assert_eq!(make_envelope(&texts(&["1", "2", "3"]), 4326).unwrap_err(), QueryError::InvalidBbox);
    assert_eq!(make_envelope(&texts(&["1", "2", "x", "4"]), 4326).unwrap_err(), QueryError::InvalidBbox);
}

#[test]
fn bbox_3d_ignores_heights() {
    let low = make_envelope(&texts(&["6", "46", "0", "10", "48", "100"]), 4326).unwrap();
    let high = make_envelope(&texts(&["6", "46", "5000", "10", "48", "9000"]), 4326).unwrap();
    for e in [&low, &high] {
        assert_eq!((e.min_x.as_str(), e.min_y.as_str(), e.max_x.as_str(), e.max_y.as_str()), ("6", "46", "10", "48"));
    }
}

#[test]
fn translate_errors() {
    let c = countries();
    assert_eq!(translate(&query(None, None, Some("nonsense"), None, None), &c).unwrap_err(), QueryError::InvalidCrsIdentifier);
    assert_eq!(translate(&query(None, None, Some("3035"), None, None), &c).unwrap_err(), QueryError::UnsupportedCrs);
    assert_eq!(
        translate(&query(Some(&["1", "2"]), None, Some("3035"), None, None), &c).unwrap_err(),
        QueryError::UnsupportedCrs
    );
    assert_eq!(translate(&query(Some(&["1", "2"]), None, None, None, None), &c).unwrap_err(), QueryError::InvalidBbox);
}

#[test]
fn countries_bbox_query_plan() {
    let q = query(Some(&["6", "46", "10", "48"]), Some("4326"), None, None, None);
    let plan = translate(&q, &countries()).unwrap();
    let e = plan.envelope.as_ref().unwrap();
    assert_eq!((e.min_x.as_str(), e.min_y.as_str(), e.max_x.as_str(), e.max_y.as_str(), e.srid), ("6", "46", "10", "48", 4326));
    let count = count_statement("countries", true);
    assert!(count.starts_with("SELECT count(*) FROM (SELECT id, properties,"));
    assert!(count.ends_with(&format!("items.countries{}) AS matched", ogcapi::store::ENVELOPE_FILTER)));
    assert_eq!(count_parameters(&plan, 4326).len(), 7);
    let params = list_parameters(&plan, 4326);
    assert_eq!(params.len(), 9);
    assert!(matches!(&params[1], Param::Text(t) if t == "6"));
    assert!(matches!(params[5], Param::Int(4326)));
    assert!(matches!(params[7], Param::Int(100)));
    let mut fc = FeatureCollection::new(vec![feature("1")]);
    finish_listing(&mut fc, "2024-01-01T00:00:00Z".to_string(), 1, "http://h/collections/countries/items", "http://h/", "http://h/collections/countries", "http://h/collections/countries/items", &q, &plan);
    assert_eq!((fc.number_matched, fc.number_returned), (Some(1), Some(1)));
    assert_eq!(fc.time_stamp.as_deref(), Some("2024-01-01T00:00:00Z"));
    let mut empty = FeatureCollection::new(Vec::new());
    finish_listing(&mut empty, "2024-01-01T00:00:00Z".to_string(), 0, "s", "r", "c", "b", &q, &plan);
    assert_eq!((empty.number_matched, empty.number_returned), (Some(0), Some(0)));
}

#[test]
fn nineteen_features_default_window() {
    let q = query(None, None, None, None, None);
    let plan = translate(&q, &countries()).unwrap();
    assert_eq!((plan.limit, plan.offset), (100, 0));
    let features: Vec<Feature> = (0..19).map(|i| feature(&i.to_string())).collect();
    let mut fc = FeatureCollection::new(features);
    finish_listing(&mut fc, "2024-05-01T12:00:00Z".to_string(), 19, "http://h/items", "http://h/", "http://h/c", "http://h/items", &q, &plan);
    assert_eq!(fc.time_stamp.as_deref(), Some("2024-05-01T12:00:00Z"));
    assert_eq!(fc.number_returned, Some(19));
    assert_eq!(fc.number_matched, Some(19));
    assert_eq!(rels(&fc.links), vec!["self", "root", "collection"]);
}

#[test]
fn page_links_carry_query() {
    let q = query(Some(&["+6", "46", "10", "48"]), Some("4326"), Some("EPSG:2056"), Some(10), Some(10));
    let plan = translate(&q, &countries()).unwrap();
    assert_eq!(
        page_query(&q, &plan, 20),
        "limit=10&offset=20&crs=EPSG:2056&bbox=%2B6,46,10,48&bbox-crs=4326"
    );
    let links = page_links("http://h/items", &q, &plan, 25);
    assert_eq!(rels(&links), vec!["prev", "next"]);
    assert!(links[0].href.starts_with("http://h/items?limit=10&offset=0&"));
    assert!(links[1].href.starts_with("http://h/items?limit=10&offset=20&"));
    assert_eq!(links[1].media_type.as_deref(), Some("application/geo+json"));
    let plain = query(None, None, None, Some(5), Some(0));
    let plan = translate(&plain, &countries()).unwrap();
    assert_eq!(page_query(&plain, &plan, 5), "limit=5&offset=5");
}

#[test]
fn feature_links_and_identity() {
    let mut f = feature("1");
    f.links.push(Link::new("old", "self"));
    f.assign_identity("countries", "7");
    assert_eq!((f.collection.as_deref(), f.id.as_deref()), (Some("countries"), Some("7")));
    assert_eq!(f.extra.as_deref(), Some("{\"version\":\"3\"}"));
    finish_feature(&mut f, "items/7", "http://h/", "..", "http://h/collections/countries/");
    assert_eq!(rels(&f.links), vec!["self", "self", "root", "collection"]);
    assert_eq!(f.links[0].href, "http://h/collections/countries/old");
    assert_eq!(f.links[1].href, "http://h/collections/countries/items/7");
    assert_eq!(f.links[1].media_type.as_deref(), Some("application/geo+json"));
    assert_eq!(f.links[2].href, "http://h/");
    assert_eq!(f.links[3].href, "http://h/collections/");
    let mut g = feature("2");
    g.links.push(Link::new("http://x/2", "self").mediatype("application/geo+json"));
    finish_feature(&mut g, "http://h/items/2", "http://h/", "http://h/c", "http://h/items/2");
    assert_eq!(rels(&g.links), vec!["self", "root", "collection"]);
    assert_eq!(g.links[0].href, "http://h/items/2");
    g.assign_collection("places");
    assert_eq!(g.collection.as_deref(), Some("places"));
}

#[test]
fn store_statements() {
    assert!(is_safe_identifier("countries"));
    assert!(is_safe_identifier("ne_10m"));
    assert!(!is_safe_identifier("1abc"));
    assert!(!is_safe_identifier("a; DROP TABLE x"));
    assert!(!is_safe_identifier(""));
    let names = texts(&["countries", "places", "Bad-Name"]);
    assert_eq!(collection_token(&names, "places").unwrap(), "places");
    assert_eq!(collection_token(&names, "railroads").unwrap_err(), StoreError::NotFound);
    assert_eq!(collection_token(&names, "Bad-Name").unwrap_err(), StoreError::NotFound);
    assert!(insert_statement("places").starts_with("INSERT INTO items.places ("));
    assert!(select_statement("places").ends_with("FROM items.places WHERE id = $2"));
    assert!(update_statement("places").starts_with("UPDATE items.places SET"));
    assert!(insert_statement("places").contains("extra) VALUES"));
    assert_eq!(delete_statement("places"), "DELETE FROM items.places WHERE id = $1");
    assert!(count_statement("places", false).ends_with("FROM items.places) AS matched"));
    assert!(page_statement("places", false).ends_with("items.places ORDER BY id LIMIT $2 OFFSET $3"));
    assert!(page_statement("places", true).ends_with("LIMIT $8 OFFSET $9"));
    assert_eq!(feature_path("places", "12"), "collections/places/items/12");
}

#[test]
fn assets_keep_keys_unique() {
    let asset = |h: &str| Asset {
        href: h.to_string(),
        title: "t".to_string(),
        description: "d".to_string(),
        content_type: "image/png".to_string(),
        roles: vec![AssetRole::Thumbnail],
    };
    let mut a = Assets::new();
    a.insert("thumb".to_string(), asset("a.png"));
    a.insert("data".to_string(), asset("b.tif"));
    a.insert("thumb".to_string(), asset("c.png"));
    assert_eq!(a.len(), 2);
    assert_eq!(a.entry(0).0, "thumb");
    assert_eq!(a.entry(0).1.href, "c.png");
    assert_eq!(a.entry(1).1.href, "b.tif");
    assert_eq!(a.position("data"), Some(1));
    assert_eq!(a.position("none"), None);
    let styles = Styles { styles: vec![Style { id: "night".to_string(), title: None, links: Vec::new() }] };
    assert_eq!(styles.styles[0].id, "night");
    let sheet = Stylesheet { id: "night".to_string(), value: serde_json::Value::Null };
    assert!(sheet.value.is_null());
}

#[test]
fn bbox_text_splits_at_commas() {
    assert_eq!(split_ordinates("6,46,10,48"), vec!["6", "46", "10", "48"]);
    assert_eq!(split_ordinates(""), vec![""]);
    assert_eq!(split_ordinates("1,,2,"), vec!["1", "", "2", ""]);
    assert_eq!(split_ordinates("7.5"), vec!["7.5"]);
}

#[test]
fn collections_conflict_and_links() {
    let names = texts(&["countries"]);
    assert_eq!(check_new_collection(&names, "countries"), Err(StoreError::Conflict));
    assert_eq!(check_new_collection(&names, "places"), Ok(()));
    let mut links = vec![Link::new("old", "items").mediatype("application/geo+json"), Link::new("license.html", "license")];
    finish_collection_links(&mut links, "countries", "http://h/", "countries/items", "http://h/collections/");
    assert_eq!(rels(&links), vec!["items", "license", "self", "root"]);
    assert_eq!(links[0].href, "http://h/collections/countries/items");
    assert_eq!(links[0].media_type.as_deref(), Some("application/geo+json"));
    assert_eq!(links[1].href, "http://h/collections/license.html");
    assert_eq!(links[2].href, "http://h/collections/countries");
}

fn pairs(v: &[(&str, &str)]) -> Vec<(String, String)> {
    v.iter().map(|(k, v)| (k.to_string(), v.to_string())).collect()
}

#[test]
fn query_decodes_from_pairs() {
    let q = Query::from_pairs(&pairs(&[
        ("limit", "5"),
        ("bbox", "6,46,10,48"),
        ("NAME", "Switzerland"),
        ("limit", "20"),
        ("crs", "EPSG:2056"),
    ]))
    .unwrap();
    assert_eq!(q.limit, Some(20));
    assert_eq!(q.offset, None);
    assert_eq!(q.bbox, Some(texts(&["6", "46", "10", "48"])));
    assert_eq!(q.crs.as_deref(), Some("EPSG:2056"));
    assert_eq!(q.bbox_crs, None);
    assert_eq!(q.filter, pairs(&[("NAME", "Switzerland")]));
    assert_eq!(Query::from_pairs(&pairs(&[("limit", "ten")])).unwrap_err(), QueryError::InvalidParameter);
    assert_eq!(Query::from_pairs(&pairs(&[("offset", "-1")])).unwrap_err(), QueryError::InvalidParameter);
    assert_eq!(Query::from_pairs(&pairs(&[("offset", "18446744073709551616")])).unwrap_err(), QueryError::InvalidParameter);
    assert_eq!(Query::from_pairs(&pairs(&[("offset", "18446744073709551615")])).unwrap().offset, Some(u64::MAX));
}

#[test]
fn page_query_escapes_and_keeps_filters() {
    let q = Query::from_pairs(&pairs(&[("NAME", "Côte d'Ivoire & co"), ("a+b", "x=y"), ("limit", "2")])).unwrap();
    let plan = translate(&q, &countries()).unwrap();
    assert_eq!(pairs(&[("NAME", "Côte d'Ivoire & co"), ("a+b", "x=y")]), plan.filter);
    assert_eq!(
        page_query(&q, &plan, 4),
        "limit=2&offset=4&NAME=C%C3%B4te%20d%27Ivoire%20%26%20co&a%2Bb=x%3Dy"
    );
    let q = Query::from_pairs(&pairs(&[("k", "\u{1F600}")])).unwrap();
    let plan = translate(&q, &countries()).unwrap();
    assert_eq!(page_query(&q, &plan, 0), "limit=100&offset=0&k=%F0%9F%98%80");
}

#[test]
fn supported_crs_defaults() {
    assert_eq!(supported_srids(&texts(&["http://www.opengis.net/def/crs/OGC/1.3/CRS84", "junk", "EPSG:2056"])), vec![4326, 2056]);
    assert_eq!(supported_srids(&texts(&["junk"])), vec![4326]);
    assert_eq!(supported_srids(&Vec::new()), vec![4326]);
}

#[test]
fn update_and_hrefs() {
    assert_eq!(update_outcome(0), Err(StoreError::NotFound));
    assert_eq!(update_outcome(1), Ok(()));
    let (root, coll, items) = resource_hrefs("http://h", "places");
    assert_eq!((root.as_str(), coll.as_str(), items.as_str()), ("http://h/", "http://h/collections/places", "http://h/collections/places/items"));
}
