use xclouder::config::{BucketSource, CloudMagic, CloudSource, Config};
use xclouder::str_map::StrMap;

fn text(s: &str) -> Option<String> {
    Some(s.to_string())
}

fn bucket(name: &str, domain: Option<&str>, cdn: Option<&str>, fallback: Option<&str>) -> BucketSource {
    BucketSource {
        name: name.to_string(),
        domain: domain.map(|s| s.to_string()),
        cdn_domain: cdn.map(|s| s.to_string()),
        fallback: fallback.map(|s| s.to_string()),
        cloud: None,
        cloud_name: None,
        grayscale: None,
    }
}

fn magic(name: &str, entries: &[(&str, &str)]) -> CloudMagic {
    let mut cloud_cfg = StrMap::new();
    for (k, v) in entries {
        cloud_cfg.insert(k.to_string(), v.to_string());
    }
    CloudMagic { name: name.to_string(), cloud_cfg }
}

fn sample() -> Config {
    Config {
        cloud_source: vec![CloudSource {
            name: "_cos".to_string(),
            cloud: text("cos"),
            grayscale: None,
            buckets: vec![
                bucket(
                    "img",
                    Some("img-1302562365.cos.ap-beijing.myqcloud.com"),
                    Some("img.banjixiaoguanjia.com"),
                    Some("_cos.backup-img"),
                ),
                bucket(
                    "backup-img",
                    Some("img-1302562365.cos.ap-beijing.myqcloud.com"),
                    Some("img.banjixiaoguanjia.com"),
                    None,
                ),
            ],
        }],
        cloud_magics: vec![magic(
            "thumbnail_200",
            &[
                ("cos", "imageMogr2/thumbnail/200>/format/jpg"),
                (
                    "oss",
                    "x-oss-process=image/resize,w_200,h_200,m_fill/auto-orient,1/interlace,1/format,jpg",
                ),
                ("tos", ""),
            ],
        )],
    }
}

#[test]
fn test_parse_config() {
    let config = sample();

    assert_eq!(config.cloud_source[0].name, "_cos");
    assert_eq!(config.cloud_source[0].buckets[0].name, "img");
    assert_eq!(config.cloud_magics[0].name, "thumbnail_200");

    let bucket = config.get_bucket("_cos", "img").unwrap();
    assert_eq!(
        bucket.domain.as_deref().unwrap(),
        "img-1302562365.cos.ap-beijing.myqcloud.com"
    );

    let cfg = config.get_magic_cfg("thumbnail_200", "cos").unwrap();
    assert_eq!(cfg, "imageMogr2/thumbnail/200>/format/jpg");

    let source = config.get_cloud_source("_cos").unwrap();
    let (fallback_source, fallback_bucket) = config.resolve_fallback(source, "img").unwrap();
    assert_eq!(fallback_source.name, "_cos");
    assert_eq!(fallback_bucket.name, "backup-img");
}

#[test]
fn lookups_miss_what_is_not_there() {
    let config = sample();
    assert!(config.get_bucket("_cos", "video").is_none());
    assert!(config.get_bucket("_tos", "img").is_none());
    assert!(config.get_cloud_source("cos").is_none());
    assert!(config.get_magic("thumbnail_100").is_none());
    assert!(config.get_magic_cfg("thumbnail_200", "kodo").is_none());
    assert!(config.get_magic_cfg("thumbnail_100", "cos").is_none());
    assert_eq!(config.get_magic_cfg("thumbnail_200", "tos"), Some(""));
}

#[test]
fn lookups_take_the_first_of_a_name() {
    let mut config = sample();
    config.cloud_source.push(CloudSource {
        name: "_cos".to_string(),
        cloud: text("other"),
        grayscale: Some(7),
        buckets: vec![],
    });
    config.cloud_source[0].buckets.push(bucket("img", Some("second.example.com"), None, None));
    assert_eq!(config.get_cloud_type("_cos"), Some("cos"));
    assert_eq!(config.get_grayscale("_cos"), None);
    assert_eq!(
        config.get_bucket_domain("_cos", "img"),
        Some("img-1302562365.cos.ap-beijing.myqcloud.com")
    );
}

#[test]
fn bucket_getters() {
    let mut config = sample();
    config.cloud_source[0].grayscale = Some(40);
    assert_eq!(config.get_bucket_cdn_domain("_cos", "img"), Some("img.banjixiaoguanjia.com"));
    assert_eq!(config.get_bucket_cdn_domain("_cos", "none"), None);
    assert_eq!(config.get_bucket_domain("_nope", "img"), None);
    assert_eq!(config.get_cloud_type("_nope"), None);
    assert_eq!(config.get_grayscale("_cos"), Some(40));
    let m = config.get_magic("thumbnail_200").unwrap();
    assert_eq!(m.get_magic("cos"), Some("imageMogr2/thumbnail/200>/format/jpg"));
    assert_eq!(m.get_magic("none"), None);
}

#[test]
fn fallback_without_separator_resolves_to_nothing() {
    let mut config = sample();
    config.cloud_source[0].buckets[0].fallback = text("backup-img");
    let source = config.get_cloud_source("_cos").unwrap();
    assert!(config.resolve_fallback(source, "img").is_none());
    assert!(config.pointer_target("_cos").is_none());
    assert!(config.pointer_target("").is_none());
}

#[test]
fn fallback_that_names_nothing_resolves_to_nothing() {
    let mut config = sample();
    let source = config.get_cloud_source("_cos").unwrap();
    assert!(config.resolve_fallback(source, "backup-img").is_none());
    assert!(config.resolve_fallback(source, "unknown").is_none());
    config.cloud_source[0].buckets[0].fallback = text("_tos.backup-img");
    let source = config.get_cloud_source("_cos").unwrap();
    assert!(config.resolve_fallback(source, "img").is_none());
    config.cloud_source[0].buckets[0].fallback = text("_cos.gone");
    let source = config.get_cloud_source("_cos").unwrap();
    assert!(config.resolve_fallback(source, "img").is_none());
}

#[test]
fn fallback_splits_at_the_first_dot() {
    let mut config = sample();
    config.cloud_source[0].buckets.push(bucket("a.b", Some("dotted.example.com"), None, None));
    config.cloud_source[0].buckets[0].fallback = text("_cos.a.b");
    let source = config.get_cloud_source("_cos").unwrap();
    let (s, b) = config.resolve_fallback(source, "img").unwrap();
    assert_eq!(s.name, "_cos");
    assert_eq!(b.name, "a.b");
}

fn update() -> Config {
    let mut img = bucket("img", Some("new.example.com"), Some("cdn.new.example.com"), None);
    img.cloud = text("ignored");
    img.grayscale = Some(5);
    Config {
        cloud_source: vec![
            CloudSource {
                name: "_cos".to_string(),
                cloud: text("cos2"),
                grayscale: Some(30),
                buckets: vec![img, bucket("video", Some("video.example.com"), None, Some("_cos.img"))],
            },
            CloudSource {
                name: "_tos".to_string(),
                cloud: text("tos"),
                grayscale: None,
                buckets: vec![bucket("img", Some("tos.example.com"), None, None)],
            },
        ],
        cloud_magics: vec![
            magic("thumbnail_200", &[("cos", "w=200"), ("kodo", "k=1")]),
            magic("blur", &[("cos", "blur=3")]),
        ],
    }
}

fn describe(config: &Config) -> String {
    let mut out = String::new();
    for s in &config.cloud_source {
        out.push_str(&format!("{}|{:?}|{:?}\n", s.name, s.cloud, s.grayscale));
        for b in &s.buckets {
            out.push_str(&format!(
                "  {}|{:?}|{:?}|{:?}|{:?}|{:?}|{:?}\n",
                b.name, b.domain, b.cdn_domain, b.fallback, b.cloud, b.cloud_name, b.grayscale
            ));
        }
    }
    for m in &config.cloud_magics {
        let mut entries: Vec<(String, String)> = Vec::new();
        for i in 0..m.cloud_cfg.len() {
            entries.push((m.cloud_cfg.key_at(i).clone(), m.cloud_cfg.value_at(i).clone()));
        }
        entries.sort();
        out.push_str(&format!("{}|{:?}\n", m.name, entries));
    }
    out
}

#[test]
fn merge_overwrites_and_appends() {
    let mut config = sample();
    config.merge(&update());

    assert_eq!(config.cloud_source.len(), 2);
    let cos = &config.cloud_source[0];
    assert_eq!(cos.cloud.as_deref(), Some("cos2"));
    assert_eq!(cos.grayscale, Some(30));
    assert_eq!(cos.buckets.len(), 3);
    let img = &cos.buckets[0];
    assert_eq!(img.domain.as_deref(), Some("new.example.com"));
    assert_eq!(img.cdn_domain.as_deref(), Some("cdn.new.example.com"));
    assert_eq!(img.fallback, None);
    assert_eq!(img.cloud, None);
    assert_eq!(img.grayscale, None);
    assert_eq!(cos.buckets[1].name, "backup-img");
    assert_eq!(cos.buckets[2].name, "video");
    assert_eq!(cos.buckets[2].fallback.as_deref(), Some("_cos.img"));
    assert_eq!(config.cloud_source[1].name, "_tos");

    assert_eq!(config.cloud_magics.len(), 2);
    assert_eq!(config.get_magic_cfg("thumbnail_200", "cos"), Some("w=200"));
    assert_eq!(config.get_magic_cfg("thumbnail_200", "kodo"), Some("k=1"));
    assert_eq!(config.get_magic_cfg("thumbnail_200", "tos"), Some(""));
    assert_eq!(config.get_magic_cfg("blur", "cos"), Some("blur=3"));
}

#[test]
fn merge_twice_is_merge_once() {
    let mut once = sample();
    once.merge(&update());
    let mut twice = sample();
    twice.merge(&update());
    twice.merge(&update());
    assert_eq!(describe(&once), describe(&twice));
}

#[test]
fn merge_into_empty_copies() {
    let mut config = Config::empty();
    config.merge(&sample());
    assert_eq!(describe(&config), describe(&sample()));
    let copy = config.clone();
    assert_eq!(describe(&copy), describe(&sample()));
}

#[test]
fn merge_of_empty_changes_nothing() {
    let mut config = sample();
    config.merge(&Config::empty());
    assert_eq!(describe(&config), describe(&sample()));
}

#[test]
fn buckets_compare_by_fields() {
    let a = bucket("img", Some("d"), None, None);
    let mut b = a.clone();
    assert!(a.same_as(&b));
    b.grayscale = Some(0);
    assert!(!a.same_as(&b));
    b.grayscale = None;
    b.cdn_domain = text("");
    assert!(!a.same_as(&b));
}

#[test]
fn merge_twice_is_merge_once_with_repeated_names() {
    let mut other = update();
    // a second cloud source and a second magic of a name that occurred before
    other.cloud_source.push(CloudSource {
        name: "_cos".to_string(),
        cloud: text("cos3"),
        grayscale: None,
        buckets: vec![
            bucket("img", Some("newest.example.com"), None, Some("_tos.img")),
            bucket("extra", Some("extra.example.com"), None, None),
        ],
    });
    other.cloud_source.push(CloudSource {
        name: "_new".to_string(),
        cloud: None,
        grayscale: Some(1),
        buckets: vec![bucket("a", Some("a1"), None, None)],
    });
    other.cloud_source.push(CloudSource {
        name: "_new".to_string(),
        cloud: text("late"),
        grayscale: None,
        buckets: vec![bucket("a", Some("a2"), Some("cdn.a2"), None), bucket("b", None, None, None)],
    });
    other.cloud_magics.push(magic("blur", &[("cos", "blur=9"), ("tos", "b")]));
    other.cloud_magics.push(magic("thumbnail_200", &[("cos", "w=201")]));

    let mut once = sample();
    once.merge(&other);
    let mut twice = sample();
    twice.merge(&other);
    twice.merge(&other);
    assert_eq!(describe(&once), describe(&twice));

    assert_eq!(once.get_cloud_type("_cos"), Some("cos3"));
    assert_eq!(once.get_bucket_domain("_cos", "img"), Some("newest.example.com"));
    assert_eq!(once.get_bucket_domain("_new", "a"), Some("a2"));
    assert_eq!(once.get_cloud_type("_new"), Some("late"));
    assert_eq!(once.get_grayscale("_new"), None);
    assert_eq!(once.get_magic_cfg("blur", "cos"), Some("blur=9"));
    assert_eq!(once.get_magic_cfg("thumbnail_200", "cos"), Some("w=201"));
    assert_eq!(once.get_magic_cfg("thumbnail_200", "kodo"), Some("k=1"));
}

#[test]
fn merge_of_a_source_with_a_repeated_bucket_name_is_not_idempotent() {
    let other = Config {
        cloud_source: vec![CloudSource {
            name: "_dup".to_string(),
            cloud: None,
            grayscale: None,
            buckets: vec![bucket("b", Some("d1"), None, None), bucket("b", Some("d2"), None, None)],
        }],
        cloud_magics: vec![],
    };
    let mut once = Config::empty();
    once.merge(&other);
    assert_eq!(once.cloud_source[0].buckets[0].domain.as_deref(), Some("d1"));
    let mut twice = Config::empty();
    twice.merge(&other);
    twice.merge(&other);
    assert_eq!(twice.cloud_source[0].buckets[0].domain.as_deref(), Some("d2"));
    assert_eq!(twice.cloud_source[0].buckets[1].domain.as_deref(), Some("d2"));
}
