//! Wikidata claims.

use commons_bot::commons_cache::Cache;
use commons_bot::telegram::{escape_text, html_link};
use commons_bot::wikidata::{
    WikidataClaims, WikidataEntity, WikidataLabelInfo, WikidataPropertyClaims, WikidataSnak,
    WikidataValue, claims_request, coordinate_url, entities_request, external_id_property_ids,
    id_batches, is_absolute_url, label_ids, label_info, normalize_language_code,
    normalize_wikidata_entity_id, render_wikidata_claims_html, render_wikidata_snak_value,
    unique_entity_ids, wikidata_claims, wikidata_entity_id_from_url,
    wikidata_entity_id_from_value, wikidata_entity_url, wikidata_external_id_url,
    wikidata_formatter_url_from_entity,
};

fn plain(s: &str) -> WikidataValue {
    WikidataValue {
        plain: Some(s.to_string()),
        json: format!("{s:?}"),
        ..WikidataValue::default()
    }
}

#[test]
fn renders_clickable_claim_keys_and_values() {
    let claims = WikidataClaims {
        item: "Q686963".to_string(),
        label: Some("Armies of Exigo".to_string()),
        description: Some("real-time strategy video game".to_string()),
        property_count: 2,
        properties: vec![
            WikidataPropertyClaims {
                property_id: "P31".to_string(),
                property_label: "instance of".to_string(),
                total_values: 1,
                values: vec![html_link(
                    "https://www.wikidata.org/wiki/Q7889",
                    "video game (Q7889)",
                )],
            },
            WikidataPropertyClaims {
                property_id: "P577".to_string(),
                property_label: "publication date".to_string(),
                total_values: 1,
                values: vec![escape_text("2004-11-30")],
            },
        ],
    };

    let rendered = render_wikidata_claims_html(&claims, 3900);

    assert!(rendered.contains(
        "<b><a href=\"https://www.wikidata.org/wiki/Q686963\">Armies of Exigo (Q686963)</a></b>"
    ));
    assert!(rendered.contains(
        "<a href=\"https://www.wikidata.org/wiki/Property:P31\">instance of (P31)</a>: <a href=\"https://www.wikidata.org/wiki/Q7889\">video game (Q7889)</a>"
    ));
    assert!(rendered.contains("Properties: 2"));
}

#[test]
fn wikidata_property_entity_urls_use_property_namespace() {
    assert_eq!(
        wikidata_entity_url("P12245"),
        "https://www.wikidata.org/wiki/Property:P12245"
    );
    assert_eq!(
        wikidata_entity_url("Q686963"),
        "https://www.wikidata.org/wiki/Q686963"
    );
}

#[test]
fn url_values_render_clickable() {
    let rendered = render_wikidata_snak_value(
        "P856",
        &WikidataSnak {
            datatype: Some("url".to_string()),
            snaktype: Some("value".to_string()),
            datavalue: Some(plain("https://example.com/source")),
        },
        &Cache::new(),
        &Cache::new(),
    )
    .unwrap();

    assert_eq!(
        rendered,
        "<a href=\"https://example.com/source\">https://example.com/source</a>"
    );
}

#[test]
fn external_id_values_render_clickable_with_formatter() {
    let mut formatters = Cache::new();
    formatters.put(
        "P12245".to_string(),
        "https://www.gamesmeter.nl/game/$1".to_string(),
    );
    let rendered = render_wikidata_snak_value(
        "P12245",
        &WikidataSnak {
            datatype: Some("external-id".to_string()),
            snaktype: Some("value".to_string()),
            datavalue: Some(plain("2888")),
        },
        &Cache::new(),
        &formatters,
    )
    .unwrap();

    assert_eq!(
        rendered,
        "<a href=\"https://www.gamesmeter.nl/game/2888\">2888</a>"
    );
}

#[test]
fn external_id_formatter_urls_are_url_encoded() {
    assert_eq!(
        wikidata_external_id_url("https://example.com/search?id=$1", "a b/1"),
        Some("https://example.com/search?id=a%20b%2F1".to_string())
    );
}

fn snak(datatype: &str, value: WikidataValue) -> WikidataSnak {
    WikidataSnak {
        datatype: Some(datatype.to_string()),
        snaktype: Some("value".to_string()),
        datavalue: Some(value),
    }
}

fn item(id: &str) -> WikidataValue {
    WikidataValue {
        id: Some(id.to_string()),
        ..WikidataValue::default()
    }
}

fn labels(list: &[(&str, &str)]) -> Cache<WikidataLabelInfo> {
    let mut cache = Cache::new();
    for (id, label) in list {
        cache.put(
            id.to_string(),
            WikidataLabelInfo {
                label: Some(label.to_string()),
                description: None,
            },
        );
    }
    cache
}

#[test]
fn entity_ids_are_stable() {
    assert_eq!(normalize_wikidata_entity_id(" q42 ").as_deref(), Some("Q42"));
    assert_eq!(normalize_wikidata_entity_id("P31").as_deref(), Some("P31"));
    assert_eq!(normalize_wikidata_entity_id("X1"), None);
    assert_eq!(normalize_wikidata_entity_id("Q"), None);
    assert_eq!(normalize_wikidata_entity_id("Q4x"), None);
    for id in ["q42", "P31"] {
        let once = normalize_wikidata_entity_id(id).unwrap();
        assert_eq!(normalize_wikidata_entity_id(&once), Some(once.clone()));
    }
}

#[test]
fn entity_ids_come_from_values() {
    assert_eq!(
        wikidata_entity_id_from_url("http://www.wikidata.org/entity/Q11573").as_deref(),
        Some("Q11573")
    );
    assert_eq!(wikidata_entity_id_from_value(&item("Q5")).as_deref(), Some("Q5"));
    let numeric = WikidataValue {
        numeric_id: Some(31),
        entity_type: Some("property".into()),
        ..WikidataValue::default()
    };
    assert_eq!(wikidata_entity_id_from_value(&numeric).as_deref(), Some("P31"));
}

#[test]
fn values_are_rendered_by_kind() {
    let known = labels(&[("Q515", "city"), ("Q11573", "metre")]);
    let render = |pid: &str, value: WikidataSnak| {
        render_wikidata_snak_value(pid, &value, &known, &Cache::new())
    };
    assert_eq!(
        render("P31", snak("wikibase-item", item("Q515"))).as_deref(),
        Some("<a href=\"https://www.wikidata.org/wiki/Q515\">city (Q515)</a>")
    );
    let unknown = WikidataSnak {
        snaktype: Some("somevalue".into()),
        ..WikidataSnak::default()
    };
    assert!(render("P31", unknown).is_some());
    let length = WikidataValue {
        amount: Some("+12".into()),
        unit: Some("http://www.wikidata.org/entity/Q11573".into()),
        ..WikidataValue::default()
    };
    let text = render("P2048", snak("quantity", length)).unwrap();
    assert!(text.contains("12") && text.contains("metre"));
    let place = WikidataValue {
        latitude: Some("53.9".into()),
        longitude: Some("27.5".into()),
        ..WikidataValue::default()
    };
    assert!(render("P625", snak("globe-coordinate", place)).unwrap().contains("53.9"));
    assert!(coordinate_url("53.9", "27.5").contains("53.9"));
}

#[test]
fn only_absolute_addresses_become_links() {
    assert!(is_absolute_url("https://a/b"));
    assert!(!is_absolute_url("a/b"));
    assert_eq!(wikidata_external_id_url("no-address/$1", "1"), None);
}

#[test]
fn claims_are_asked_for_once_per_language() {
    assert_eq!(normalize_language_code(""), "en");
    let request = claims_request("q42", "be").unwrap();
    assert_eq!((request.item.as_str(), request.key.as_str()), ("Q42", "be:Q42"));
    assert!(claims_request("nothing", "en").is_none());
    let list = entities_request("Q42", "labels", Some("be"));
    assert!(list.contains(&("languages".to_string(), "be|en".to_string())));
    assert_eq!(entities_request("Q42", "claims", None).len(), 4);
}

#[test]
fn ids_are_collected_in_batches() {
    let claims = vec![
        ("P31".to_string(), vec![snak("wikibase-item", item("Q515"))]),
        ("P12245".to_string(), vec![snak("external-id", plain("1"))]),
    ];
    let ids = label_ids("Q42", &claims);
    for id in ["P31", "Q515", "P12245"] {
        assert!(ids.contains(&id.to_string()), "{id}");
    }
    assert_eq!(external_id_property_ids(&claims), vec!["P12245"]);
    let repeated: Vec<String> = ["Q1", "q1", "P2", "x"].iter().map(|s| s.to_string()).collect();
    assert_eq!(unique_entity_ids(&repeated, false).len(), 2);
    assert_eq!(unique_entity_ids(&repeated, true), vec!["P2"]);
    let many: Vec<String> = (1..=60).map(|n| format!("Q{n}")).collect();
    let batches = id_batches(&many);
    assert_eq!(batches.len(), 2);
    assert_eq!(batches[0].split('|').count(), 50);
}

#[test]
fn labels_fall_back() {
    let entity = WikidataEntity {
        claims: None,
        labels: Some(vec![
            ("en".to_string(), "Minsk".to_string()),
            ("be".to_string(), "Мінск".to_string()),
        ]),
        descriptions: None,
    };
    assert_eq!(label_info(&entity, "be").label.as_deref(), Some("Мінск"));
    assert_eq!(label_info(&entity, "de").label.as_deref(), Some("Minsk"));
    assert_eq!(label_info(&entity, "be").description, None);
}

#[test]
fn formatters_come_from_an_entity() {
    let entity = WikidataEntity {
        claims: Some(vec![(
            "P1630".to_string(),
            vec![snak("string", plain("https://example.com/$1"))],
        )]),
        ..WikidataEntity::default()
    };
    assert_eq!(
        wikidata_formatter_url_from_entity(&entity).as_deref(),
        Some("https://example.com/$1")
    );
    assert_eq!(wikidata_formatter_url_from_entity(&WikidataEntity::default()), None);
}

#[test]
fn properties_come_in_order_and_fit() {
    let entity = WikidataEntity {
        claims: Some(
            (1..=40)
                .map(|n| (format!("P{n}"), vec![snak("wikibase-item", item("Q515"))]))
                .collect(),
        ),
        ..WikidataEntity::default()
    };
    let known = labels(&[("Q515", "city")]);
    let claims = wikidata_claims("Q42", "en", &entity, &known, &Cache::new());
    assert_eq!(claims.property_count, 40);
    assert_eq!(claims.properties.len(), 40);
    let names: Vec<String> = claims
        .properties
        .iter()
        .map(|property| property.property_label.to_lowercase())
        .collect();
    let mut sorted = names.clone();
    sorted.sort();
    assert_eq!(names, sorted);
    let html = render_wikidata_claims_html(&claims, 900);
    assert!(html.contains("Properties: 40"));
    assert!(html.matches("Property:P").count() < 30);
    let long = render_wikidata_claims_html(&claims, 90_000);
    assert_eq!(long.matches("Property:P").count(), 30);
    assert!(long.ends_with("\nShown first 30 of 40 properties."));
    let heading = html.lines().take(2).collect::<Vec<_>>().join("\n");
    let with_closing = format!("{heading}\nShown first 0 of 40 properties.");
    for limit in [0, 1, heading.chars().count() - 1] {
        assert_eq!(render_wikidata_claims_html(&claims, limit), with_closing);
    }
    for limit in heading.chars().count()..1200 {
        let html = render_wikidata_claims_html(&claims, limit);
        let shown = html.matches("Property:P").count();
        assert!(html.chars().count() <= limit, "{limit}");
        assert!(html.starts_with(&heading));
        let closing = format!("\nShown first {shown} of 40 properties.");
        if html != heading {
            assert!(html.ends_with(&closing));
        } else {
            assert!(heading.chars().count() + closing.chars().count() > limit);
        }
    }
}

#[test]
fn all_properties_are_shown_where_they_just_fit() {
    let entity = WikidataEntity {
        claims: Some(
            (1..=3)
                .map(|n| (format!("P{n}"), vec![snak("wikibase-item", item("Q515"))]))
                .collect(),
        ),
        ..WikidataEntity::default()
    };
    let known = labels(&[("Q515", "city")]);
    let claims = wikidata_claims("Q42", "en", &entity, &known, &Cache::new());
    let all = render_wikidata_claims_html(&claims, 90_000);
    assert!(!all.contains("Shown first"));
    let length = all.chars().count();
    assert_eq!(render_wikidata_claims_html(&claims, length), all);
    let shorter = render_wikidata_claims_html(&claims, length - 1);
    assert!(shorter.ends_with("\nShown first 2 of 3 properties."));
    assert!(shorter.chars().count() < length);
}
