use xclouder::cloud_client::CloudClient;
use xclouder::config::{BucketSource, CloudMagic, CloudSource, Config};
use xclouder::error::XError;
use xclouder::str_map::StrMap;
use xclouder::{Clouder, ClouderOptions};

fn bucket(name: &str, domain: Option<&str>, fallback: Option<&str>, grayscale: Option<i64>) -> BucketSource {
    BucketSource {
        name: name.to_string(),
        domain: domain.map(|s| s.to_string()),
        cdn_domain: None,
        fallback: fallback.map(|s| s.to_string()),
        cloud: Some("mock".to_string()),
        cloud_name: None,
        grayscale,
    }
}

fn cloud(name: &str, buckets: Vec<BucketSource>) -> CloudSource {
    CloudSource { name: name.to_string(), cloud: Some("mock".to_string()), grayscale: None, buckets }
}

fn magic(name: &str, entries: &[(&str, &str)]) -> CloudMagic {
    let mut cloud_cfg = StrMap::new();
    for (k, v) in entries {
        cloud_cfg.insert(k.to_string(), v.to_string());
    }
    CloudMagic { name: name.to_string(), cloud_cfg }
}

fn client(sources: Vec<CloudSource>) -> CloudClient {
    let mut client = CloudClient::new();
    client.load_conf(Some(Config { cloud_source: sources, cloud_magics: vec![] }), None);
    client
}

#[test]
fn test_key_operations() {
    let opts = ClouderOptions { strategy: vec!["mock".to_string()] };

    let clouder = Clouder::new(opts);

    assert!(clouder.is_xclouder("_mock/test.jpg"));
    assert!(!clouder.is_xclouder("test.jpg"));

    assert_eq!(clouder.take_cloud("_mock/test.jpg").unwrap(), "_mock");
    assert_eq!(clouder.take_cloud("/_mock/test.jpg").unwrap(), "_mock");
    assert!(clouder.take_cloud("test.jpg").is_none());

    assert_eq!(clouder.simple_key("_mock/test.jpg"), "test.jpg");
    assert_eq!(clouder.simple_key("/_mock/test.jpg"), "test.jpg");
    assert_eq!(clouder.simple_key("test.jpg"), "test.jpg");
}

#[test]
fn keys_and_their_tags() {
    let client = CloudClient::new();
    assert_eq!(client.take_cloud("/_cos/x.jpg").unwrap(), "_cos");
    assert!(client.take_cloud("plain/x.jpg").is_none());
    assert_eq!(client.simple_key("/_cos/x.jpg"), "x.jpg");

    assert!(client.take_cloud("_cos").is_none());
    assert!(client.take_cloud("").is_none());
    assert!(client.take_cloud("//_cos/x").is_none());
    assert!(client.take_cloud("/plain/x").is_none());
    assert_eq!(client.take_cloud("_/x").unwrap(), "_");
    assert_eq!(client.take_cloud("_a/b/c").unwrap(), "_a");
    assert!(client.is_xclouder("/_a/b"));
    assert!(!client.is_xclouder("/_a"));

    assert_eq!(client.simple_key("_cos"), "_cos");
    assert_eq!(client.simple_key("/_cos"), "_cos");
    assert_eq!(client.simple_key("/plain/x"), "/plain/x");
    assert_eq!(client.simple_key("_a/b/c"), "b/c");
    assert_eq!(client.simple_key("_a/"), "");
    assert_eq!(client.simple_key(""), "");
}

#[test]
fn without_configuration_nothing_is_found() {
    let client = CloudClient::new();
    assert!(matches!(client.current_bucket_source("img", "_a", true), Err(XError::InvalidConfig)));
    assert!(matches!(client.current_bucket_source("img", "_a", false), Err(XError::InvalidConfig)));
    assert!(matches!(client.current_branch_cloud_source("img"), Err(XError::BucketNotFound(_))));
    assert!(matches!(client.current_cloud_source("_a"), Err(XError::CloudNotFound)));
    assert!(matches!(client.get_cloud_strategy("mock"), Err(XError::CloudNotFound)));
    assert!(matches!(client.current_magics(&["m"]), Err(XError::InvalidConfig)));
    assert_eq!(client.current_magics(&[]).unwrap().len(), 0);
}

#[test]
fn bucket_lookup_errors() {
    let client = client(vec![cloud("_a", vec![bucket("img", Some("a.example.com"), None, None)])]);
    assert!(matches!(client.current_bucket_source("img", "_b", true), Err(XError::CloudNotFound)));
    match client.current_bucket_source("video", "_a", true) {
        Err(XError::BucketNotFound(name)) => assert_eq!(name, "video"),
        other => panic!("unexpected {:?}", other),
    }
    assert_eq!(client.current_bucket_source("img", "_a", true).unwrap().name, "img");
}

fn gated(grayscale: Option<i64>, domain: Option<&str>, fallback: Option<&str>) -> CloudClient {
    client(vec![
        cloud("_a", vec![bucket("img", domain, fallback, grayscale)]),
        cloud("_b", vec![bucket("img", Some("b.example.com"), None, None)]),
    ])
}

#[test]
fn full_grayscale_never_hops() {
    let client = gated(Some(100), Some("a.example.com"), Some("_b.img"));
    for _ in 0..200 {
        let b = client.current_bucket_source("img", "_a", true).unwrap();
        assert_eq!(b.domain.as_deref(), Some("a.example.com"));
    }
    for draw in 0..100 {
        let b = client.bucket_source_for_draw("img", "_a", true, draw).unwrap();
        assert_eq!(b.domain.as_deref(), Some("a.example.com"));
    }
}

#[test]
fn zero_grayscale_always_hops() {
    let client = gated(Some(0), Some("a.example.com"), Some("_b.img"));
    for _ in 0..200 {
        let b = client.current_bucket_source("img", "_a", true).unwrap();
        assert_eq!(b.domain.as_deref(), Some("b.example.com"));
    }
    for draw in 0..100 {
        let b = client.bucket_source_for_draw("img", "_a", true, draw).unwrap();
        assert_eq!(b.domain.as_deref(), Some("b.example.com"));
    }
    // with the grayscale check switched off the bucket itself is handed out
    let b = client.current_bucket_source("img", "_a", false).unwrap();
    assert_eq!(b.domain.as_deref(), Some("a.example.com"));
}

#[test]
fn gate_admits_below_the_value() {
    let client = gated(Some(30), Some("a.example.com"), Some("_b.img"));
    assert_eq!(
        client.bucket_source_for_draw("img", "_a", true, 29).unwrap().domain.as_deref(),
        Some("a.example.com")
    );
    assert_eq!(
        client.bucket_source_for_draw("img", "_a", true, 30).unwrap().domain.as_deref(),
        Some("b.example.com")
    );
    assert_eq!(
        client.bucket_source_for_draw("img", "_a", false, 99).unwrap().domain.as_deref(),
        Some("a.example.com")
    );
}

#[test]
fn absent_grayscale_always_admits() {
    let client = gated(None, Some("a.example.com"), Some("_b.img"));
    for draw in 0..100 {
        let b = client.bucket_source_for_draw("img", "_a", true, draw).unwrap();
        assert_eq!(b.domain.as_deref(), Some("a.example.com"));
    }
}

#[test]
fn bucket_without_domain_always_hops() {
    let client = gated(Some(100), None, Some("_b.img"));
    let b = client.current_bucket_source("img", "_a", true).unwrap();
    assert_eq!(b.domain.as_deref(), Some("b.example.com"));
    let b = client.current_bucket_source("img", "_a", false).unwrap();
    assert_eq!(b.domain, None);
}

#[test]
fn refused_bucket_stays_where_fallback_does_not_resolve() {
    let none = gated(Some(0), Some("a.example.com"), None);
    assert_eq!(
        none.current_bucket_source("img", "_a", true).unwrap().domain.as_deref(),
        Some("a.example.com")
    );
    let no_dot = gated(Some(0), Some("a.example.com"), Some("_b"));
    assert_eq!(
        no_dot.current_bucket_source("img", "_a", true).unwrap().domain.as_deref(),
        Some("a.example.com")
    );
    let unknown = gated(Some(0), Some("a.example.com"), Some("_c.img"));
    assert_eq!(
        unknown.current_bucket_source("img", "_a", true).unwrap().domain.as_deref(),
        Some("a.example.com")
    );
}

#[test]
fn gate_hops_once_only() {
    let client = client(vec![
        cloud("_a", vec![bucket("img", Some("a.example.com"), Some("_b.img"), Some(0))]),
        cloud("_b", vec![bucket("img", None, Some("_c.img"), Some(0))]),
        cloud("_c", vec![bucket("img", Some("c.example.com"), None, None)]),
    ]);
    let b = client.current_bucket_source("img", "_a", true).unwrap();
    assert_eq!(b.fallback.as_deref(), Some("_c.img"));
}

#[test]
fn when_percent_at_the_ends() {
    for _ in 0..200 {
        assert!(CloudClient::when_percent(100));
        assert!(CloudClient::when_percent(1000));
        assert!(!CloudClient::when_percent(0));
        assert!(!CloudClient::when_percent(-5));
    }
    let mut seen_true = false;
    let mut seen_false = false;
    for _ in 0..2000 {
        if CloudClient::when_percent(50) {
            seen_true = true;
        } else {
            seen_false = true;
        }
    }
    assert!(seen_true && seen_false);
}

fn names(chain: &[&BucketSource]) -> Vec<String> {
    chain.iter().map(|b| b.domain.clone().unwrap_or_default()).collect()
}

#[test]
fn chain_follows_pointers() {
    let client = client(vec![
        cloud("_a", vec![bucket("img", Some("a"), Some("_b.img"), None)]),
        cloud("_b", vec![bucket("img", Some("b"), Some("_c.img"), Some(0))]),
        cloud("_c", vec![bucket("img", Some("c"), None, None)]),
    ]);
    let start = client.current_bucket_source("img", "_a", false).unwrap();
    let chain = client.feedback_bucket_sources(start, &[]).unwrap();
    assert_eq!(names(&chain), vec!["b", "c"]);
    let last = client.current_bucket_source("img", "_c", false).unwrap();
    assert_eq!(client.feedback_bucket_sources(last, &[]).unwrap().len(), 0);
}

#[test]
fn chain_ends_on_a_cycle() {
    let client = client(vec![
        cloud("_a", vec![bucket("img", Some("a"), Some("_b.img"), None)]),
        cloud("_b", vec![bucket("img", Some("b"), Some("_c.img"), None)]),
        cloud("_c", vec![bucket("img", Some("c"), Some("_a.img"), None)]),
    ]);
    let start = client.current_bucket_source("img", "_a", false).unwrap();
    let chain = client.feedback_bucket_sources(start, &[]).unwrap();
    assert_eq!(names(&chain), vec!["b", "c", "a"]);
    let chain = client.feedback_bucket_sources(start, &[start]).unwrap();
    assert_eq!(names(&chain), vec!["b", "c"]);
    for (i, x) in chain.iter().enumerate() {
        for y in chain.iter().skip(i + 1) {
            assert!(!x.same_as(y));
        }
    }
}

#[test]
fn chain_ends_on_a_self_pointer() {
    let client = client(vec![cloud("_a", vec![bucket("img", Some("a"), Some("_a.img"), None)])]);
    let start = client.current_bucket_source("img", "_a", false).unwrap();
    assert_eq!(names(&client.feedback_bucket_sources(start, &[]).unwrap()), vec!["a"]);
    assert_eq!(client.feedback_bucket_sources(start, &[start]).unwrap().len(), 0);
}

#[test]
fn chain_ends_on_ignored_and_unresolvable() {
    let client = client(vec![
        cloud("_a", vec![bucket("img", Some("a"), Some("_b.img"), None)]),
        cloud("_b", vec![bucket("img", Some("b"), Some("_c.img"), None)]),
        cloud("_c", vec![bucket("img", Some("c"), Some("_d.img"), None)]),
    ]);
    let start = client.current_bucket_source("img", "_a", false).unwrap();
    let c = client.current_bucket_source("img", "_c", false).unwrap();
    assert_eq!(names(&client.feedback_bucket_sources(start, &[c]).unwrap()), vec!["b"]);
    assert_eq!(names(&client.feedback_bucket_sources(start, &[]).unwrap()), vec!["b", "c"]);
}

#[test]
fn chain_ends_at_a_pointer_without_dot() {
    let client = client(vec![
        cloud("_a", vec![bucket("img", Some("a"), Some("_b"), None)]),
        cloud("_b", vec![bucket("video", Some("bv"), None, None), bucket("img", Some("b"), None, None)]),
    ]);
    let start = client.current_bucket_source("img", "_a", false).unwrap();
    assert_eq!(client.feedback_bucket_sources(start, &[]).unwrap().len(), 0);
    assert_eq!(client.feedback_bucket_sources(start, &[start]).unwrap().len(), 0);
    assert_eq!(client.switch_candidates(start).len(), 0);
    assert!(matches!(client.try_switch_domain(start).outcome(), Some(Err(XError::NetworkError(_)))));
}

#[test]
fn chain_stops_before_a_pointer_without_dot() {
    let client = client(vec![
        cloud("_a", vec![bucket("img", Some("a"), Some("_b.img"), None)]),
        cloud("_b", vec![bucket("img", Some("b"), Some("_c"), None)]),
        cloud("_c", vec![bucket("img", Some("c"), None, None)]),
    ]);
    let start = client.current_bucket_source("img", "_a", false).unwrap();
    assert_eq!(names(&client.feedback_bucket_sources(start, &[]).unwrap()), vec!["b"]);
}

#[test]
fn fallback_pointer_parts() {
    let client = CloudClient::new();
    assert_eq!(client.parse_fallback("_b.img"), ("_b", Some("img")));
    assert_eq!(client.parse_fallback("_b"), ("_b", None));
    assert_eq!(client.parse_fallback("_b.a.c"), ("_b", Some("a.c")));
}

#[test]
fn chain_without_configuration_is_empty() {
    let client = CloudClient::new();
    let start = bucket("img", Some("a"), Some("_b.img"), None);
    assert_eq!(client.feedback_bucket_sources(&start, &[]).unwrap().len(), 0);
    assert_eq!(client.switch_candidates(&start).len(), 0);
}

#[test]
fn switch_candidates_leave_out_the_current() {
    let client = client(vec![
        cloud("_a", vec![bucket("img", Some("a"), Some("_b.img"), None)]),
        cloud("_b", vec![bucket("img", Some("b"), Some("_a.img"), None)]),
    ]);
    let start = client.current_bucket_source("img", "_a", false).unwrap();
    let found = client.switch_candidates(start);
    assert_eq!(found.len(), 1);
    assert_eq!(found[0].domain.as_deref(), Some("b"));
}

#[test]
fn load_conf_builds_the_indexes() {
    let mut a_img = bucket("img", Some("first"), None, None);
    a_img.cdn_domain = Some("cdn.first".to_string());
    let remote = Config {
        cloud_source: vec![
            cloud("_a", vec![a_img, bucket("video", Some("v"), None, None), bucket("img", Some("second"), None, None)]),
            cloud("_b", vec![bucket("img", Some("b"), None, None)]),
            cloud("_a", vec![bucket("img", Some("third"), None, None)]),
        ],
        cloud_magics: vec![magic("m", &[("cos", "remote")]), magic("r", &[("cos", "r")])],
    };
    let local = Config {
        cloud_source: vec![cloud("_local", vec![bucket("img", Some("l"), None, None)])],
        cloud_magics: vec![magic("m", &[("cos", "local")]), magic("l", &[("cos", "l")])],
    };
    let mut client = CloudClient::new();
    client.load_strategy("mock", 3);
    client.load_conf(Some(remote), Some(local));

    let row = client.current_branch_cloud_source("img").unwrap();
    assert_eq!(row.len(), 2);
    assert_eq!(row.get("_a").unwrap().domain.as_deref(), Some("third"));
    assert_eq!(row.get("_b").unwrap().domain.as_deref(), Some("b"));
    assert!(row.get("_local").is_none());
    let row = client.current_branch_cloud_source("video").unwrap();
    assert_eq!(row.len(), 1);
    assert!(client.current_branch_cloud_source("audio").is_err());

    let found = client.current_magics(&["m", "l", "r", "m"]).unwrap();
    assert_eq!(found.len(), 4);
    assert_eq!(found[0].get_magic("cos"), Some("remote"));
    assert_eq!(found[1].get_magic("cos"), Some("l"));
    assert_eq!(found[2].get_magic("cos"), Some("r"));
    assert_eq!(found[3].get_magic("cos"), Some("remote"));
    assert!(matches!(client.current_magics(&["m", "x"]), Err(XError::InvalidConfig)));

    assert_eq!(client.current_cloud_source("_a").unwrap().buckets[0].domain.as_deref(), Some("third"));
    assert_eq!(client.current_cloud_source("a").unwrap().buckets.len(), 1);
    assert_eq!(client.current_cloud_source("b").unwrap().name, "_b");
    assert!(client.current_cloud_source("c").is_err());
    assert!(client.current_cloud_source("").is_err());

    assert_eq!(client.get_cloud_strategy("mock").unwrap(), 3);
    assert_eq!(client.config.as_ref().unwrap().cloud_source.len(), 3);
    assert_eq!(client.local_config.as_ref().unwrap().cloud_source[0].name, "_local");
}

#[test]
fn reload_replaces_the_whole_set() {
    let mut client = client(vec![cloud("_a", vec![bucket("img", Some("a"), None, None)])]);
    client.load_conf(
        Some(Config { cloud_source: vec![cloud("_b", vec![bucket("video", Some("b"), None, None)])], cloud_magics: vec![] }),
        None,
    );
    assert!(client.current_branch_cloud_source("img").is_err());
    assert!(client.current_cloud_source("_a").is_err());
    assert!(client.current_cloud_source("_b").is_ok());
    assert!(client.current_bucket_source("img", "_a", false).is_err());
}

#[test]
fn unreadable_document_counts_as_empty() {
    let mut client = CloudClient::new();
    client.load_conf(None, Some(Config { cloud_source: vec![], cloud_magics: vec![magic("m", &[("cos", "l")])] }));
    assert_eq!(client.config.as_ref().unwrap().cloud_source.len(), 0);
    assert_eq!(client.config.as_ref().unwrap().cloud_magics.len(), 0);
    assert_eq!(client.current_magics(&["m"]).unwrap()[0].get_magic("cos"), Some("l"));
    assert!(matches!(client.current_bucket_source("img", "_a", true), Err(XError::CloudNotFound)));

    client.init(None, None);
    assert!(client.current_magics(&["m"]).is_err());
    assert_eq!(client.local_config.as_ref().unwrap().cloud_magics.len(), 0);
}

#[test]
fn strategies_are_registered_by_position() {
    let clouder = Clouder::new(ClouderOptions {
        strategy: vec!["cos".to_string(), "tos".to_string(), "cos".to_string()],
    });
    let _ = clouder;
    let mut client = CloudClient::new();
    client.load_strategy("cos", 0);
    client.load_strategy("tos", 1);
    client.load_strategy("cos", 2);
    assert_eq!(client.get_cloud_strategy("cos").unwrap(), 2);
    assert_eq!(client.get_cloud_strategy("tos").unwrap(), 1);
    assert!(client.get_cloud_strategy("oss").is_err());
}

#[test]
fn str_map_behaves_as_a_map() {
    let mut m: StrMap<String> = StrMap::new();
    assert_eq!(m.len(), 0);
    assert!(m.get("a").is_none());
    m.insert("a".to_string(), "1".to_string());
    m.insert("b".to_string(), "2".to_string());
    m.insert("a".to_string(), "3".to_string());
    assert_eq!(m.len(), 2);
    assert_eq!(m.get("a").unwrap(), "3");
    assert_eq!(m.key_at(0), "a");
    assert_eq!(m.value_at(1), "2");
    assert!(m.contains_key("b") && !m.contains_key("c"));
    let mut other: StrMap<String> = StrMap::new();
    other.insert("b".to_string(), "20".to_string());
    other.insert("c".to_string(), "30".to_string());
    m.extend(&other);
    assert_eq!(m.len(), 3);
    assert_eq!(m.get("a").unwrap(), "3");
    assert_eq!(m.get("b").unwrap(), "20");
    assert_eq!(m.get("c").unwrap(), "30");
}

#[test]
fn bucket_from_source_document() {
    let client = CloudClient::new();
    let source: serde_json::Value =
        serde_json::from_str("{\"name\":\"_a\",\"bucketMap\":{\"img\":{\"domain\":\"a\"},\"n\":1}}").unwrap();
    let found = client.get_bucket_from_source(&source, "img").unwrap();
    assert_eq!(found.to_string(), "{\"domain\":\"a\"}");
    assert_eq!(client.get_bucket_from_source(&source, "n").unwrap().to_string(), "1");
    match client.get_bucket_from_source(&source, "video") {
        Err(XError::BucketNotFound(name)) => assert_eq!(name, "video"),
        other => panic!("unexpected {:?}", other),
    }
    assert!(client.get_bucket_from_source(&source, "bucketMap").is_err());
    let flat: serde_json::Value = serde_json::from_str("{\"bucketMap\":[1,2]}").unwrap();
    assert!(client.get_bucket_from_source(&flat, "0").is_err());
    let none: serde_json::Value = serde_json::from_str("null").unwrap();
    assert!(client.get_bucket_from_source(&none, "img").is_err());
}
