use xclouder::config::{BucketSource, CloudMagic, CloudSource, Config};
use xclouder::error::XError;
use xclouder::resolver::resolve;
use xclouder::str_map::StrMap;
use xclouder::{Clouder, ClouderOptions};

fn source(name: &str, cloud: Option<&str>, cdn: Option<&str>) -> BucketSource {
    BucketSource {
        name: name.to_string(),
        cloud: cloud.map(|s| s.to_string()),
        cdn_domain: cdn.map(|s| s.to_string()),
        domain: None,
        fallback: None,
        cloud_name: None,
        grayscale: None,
    }
}

fn magic(name: &str, entries: &[(&str, &str)]) -> CloudMagic {
    let mut cloud_cfg = StrMap::new();
    for (k, v) in entries {
        cloud_cfg.insert(k.to_string(), v.to_string());
    }
    CloudMagic { name: name.to_string(), cloud_cfg }
}

fn index() -> StrMap<BucketSource> {
    let mut map = StrMap::new();
    map.insert("_cos".to_string(), source("img", Some("cos"), Some("cdn.example.com")));
    map.insert("_tos".to_string(), source("img", Some("tos"), Some("tos.example.com")));
    map.insert("_oss".to_string(), source("img", None, Some("oss.example.com")));
    map.insert("_bare".to_string(), source("img", Some("cos"), None));
    map
}

#[test]
fn mod_test_resolve() {
    let mut bucket_cloud_source = StrMap::new();
    let bucket_source = BucketSource {
        name: "_cos".to_string(),
        cloud: Some("cos".to_string()),
        cdn_domain: Some("example.cos.com".to_string()),
        domain: None,
        fallback: None,
        cloud_name: None,
        grayscale: None,
    };
    bucket_cloud_source.insert("_cos".to_string(), bucket_source);

    let mut cloud_cfg = StrMap::new();
    cloud_cfg.insert("cos".to_string(), "imageMogr2/thumbnail/200".to_string());
    let magic = CloudMagic { name: "thumbnail".to_string(), cloud_cfg };

    let key = "_cos/test.jpg";

    let url = resolve(&bucket_cloud_source, key, &[&magic]);
    assert_eq!(url, "https://example.cos.com/_cos/test.jpg?imageMogr2/thumbnail/200");
}

fn mock_config() -> Config {
    Config {
        cloud_source: vec![CloudSource {
            name: "_mock".to_string(),
            cloud: Some("mock".to_string()),
            grayscale: None,
            buckets: vec![BucketSource {
                name: "test".to_string(),
                domain: Some("test.mock.com".to_string()),
                cdn_domain: Some("cdn.mock.com".to_string()),
                fallback: None,
                cloud: Some("mock".to_string()),
                cloud_name: Some("_mock".to_string()),
                grayscale: None,
            }],
        }],
        cloud_magics: vec![magic("thumbnail", &[("mock", "size=100x100")])],
    }
}

#[test]
fn lib_test_resolve() {
    let opts = ClouderOptions { strategy: vec!["mock".to_string()] };

    let mut clouder = Clouder::new(opts);
    clouder.init(None, Some(mock_config()));

    let result = clouder.resolve("test", "_mock/test.jpg", &["thumbnail"]);

    assert!(result.is_ok());
    let url = result.unwrap();
    assert!(url.contains("cdn.mock.com"));
    assert!(url.contains("size=100x100"));
    assert_eq!(url, "https://cdn.mock.com/_mock/test.jpg?size=100x100");
}

#[test]
fn clouder_resolve_needs_bucket_and_magics() {
    let mut clouder = Clouder::new(ClouderOptions { strategy: vec![] });
    clouder.init(None, Some(mock_config()));
    match clouder.resolve("other", "_mock/test.jpg", &["thumbnail"]) {
        Err(XError::BucketNotFound(name)) => assert_eq!(name, "other"),
        other => panic!("unexpected {:?}", other),
    }
    assert!(matches!(
        clouder.resolve("test", "_mock/test.jpg", &["thumbnail", "blur"]),
        Err(XError::InvalidConfig)
    ));
    assert_eq!(
        clouder.resolve("test", "_mock/test.jpg", &[]).unwrap(),
        "https://cdn.mock.com/_mock/test.jpg"
    );
    assert_eq!(clouder.xc().len(), 1);
    assert_eq!(clouder.xcm().len(), 1);
    assert!(clouder.xcm().contains_key("thumbnail"));
    assert!(clouder.xc().get("test").unwrap().contains_key("_mock"));
}

#[test]
fn tagged_key_with_magic() {
    let thumbnail = magic("thumbnail", &[("cos", "w=200")]);
    let mut map = StrMap::new();
    map.insert("_cos".to_string(), source("img", Some("cos"), Some("cdn.example.com")));
    assert_eq!(
        resolve(&map, "_cos/test.jpg", &[&thumbnail]),
        "https://cdn.example.com/_cos/test.jpg?w=200"
    );
}

#[test]
fn address_passes_through() {
    let thumbnail = magic("thumbnail", &[("cos", "w=200")]);
    assert_eq!(
        resolve(&index(), "http://already.example.com/x.jpg", &[&thumbnail]),
        "http://already.example.com/x.jpg"
    );
    assert_eq!(
        resolve(&index(), "https://already.example.com/x.jpg?a=1", &[&thumbnail]),
        "https://already.example.com/x.jpg?a=1"
    );
    assert_eq!(resolve(&index(), "wxfile://tmp/x.jpg", &[&thumbnail]), "wxfile://tmp/x.jpg");
    assert_eq!(resolve(&index(), "httpx", &[]), "httpx");
}

#[test]
fn non_ascii_passes_through() {
    let thumbnail = magic("thumbnail", &[("cos", "w=200")]);
    assert_eq!(resolve(&index(), "_cos/图片.jpg", &[&thumbnail]), "_cos/图片.jpg");
    assert_eq!(resolve(&index(), "/_cos/é", &[]), "/_cos/é");
}

#[test]
fn leading_slash_is_stripped_once() {
    assert_eq!(resolve(&index(), "/_cos/a.jpg", &[]), "https://cdn.example.com/_cos/a.jpg");
    assert_eq!(resolve(&index(), "//_cos/a.jpg", &[]), "https://cdn.example.com//_cos/a.jpg");
}

#[test]
fn own_query_comes_first() {
    let a = magic("a", &[("cos", "w=200")]);
    let b = magic("b", &[("cos", "h=100")]);
    assert_eq!(
        resolve(&index(), "_cos/a.jpg?x=1", &[&a, &b]),
        "https://cdn.example.com/_cos/a.jpg?x=1&w=200&h=100"
    );
    assert_eq!(
        resolve(&index(), "_cos/a.jpg?x=1?y=2", &[&b, &a]),
        "https://cdn.example.com/_cos/a.jpg?x=1?y=2&h=100&w=200"
    );
    assert_eq!(resolve(&index(), "_cos/a.jpg?", &[]), "https://cdn.example.com/_cos/a.jpg");
}

#[test]
fn empty_and_missing_fragments_are_left_out() {
    let a = magic("a", &[("cos", ""), ("tos", "t=1")]);
    let b = magic("b", &[("oss", "o=1")]);
    let c = magic("c", &[("cos", "c=1")]);
    assert_eq!(
        resolve(&index(), "_cos/a.jpg", &[&a, &b, &c]),
        "https://cdn.example.com/_cos/a.jpg?c=1"
    );
    assert_eq!(resolve(&index(), "_cos/a.jpg", &[&a, &b]), "https://cdn.example.com/_cos/a.jpg");
    assert_eq!(resolve(&index(), "_tos/a.jpg", &[&a, &b, &c]), "https://tos.example.com/_tos/a.jpg?t=1");
}

#[test]
fn bucket_without_provider_takes_no_magic() {
    let b = magic("b", &[("oss", "o=1")]);
    assert_eq!(resolve(&index(), "_oss/a.jpg", &[&b]), "https://oss.example.com/_oss/a.jpg");
}

#[test]
fn untagged_key_is_inferred() {
    let c = magic("c", &[("cos", "c=1"), ("tos", "t=1")]);
    assert_eq!(resolve(&index(), "photos/a.jpg", &[&c]), "https://tos.example.com/photos/a.jpg?t=1");
    assert_eq!(resolve(&index(), "cos/tos/a.jpg", &[&c]), "https://cdn.example.com/cos/tos/a.jpg?c=1");
    assert_eq!(resolve(&index(), "gloss/a.jpg", &[&c]), "https://oss.example.com/gloss/a.jpg");
    assert_eq!(resolve(&index(), "plain/a.jpg", &[&c]), "https://cdn.example.com/plain/a.jpg?c=1");
    assert_eq!(resolve(&index(), "toss/a.jpg", &[]), "https://tos.example.com/toss/a.jpg");
    // the provider's name is looked for in the path only
    assert_eq!(resolve(&index(), "plain/a.jpg?tos", &[]), "https://cdn.example.com/plain/a.jpg?tos");
}

#[test]
fn unknown_tag_gives_empty_host() {
    let c = magic("c", &[("cos", "c=1")]);
    assert_eq!(resolve(&index(), "_kodo/a.jpg", &[&c]), "https:///_kodo/a.jpg");
    assert_eq!(resolve(&index(), "_kodo/a.jpg?x", &[&c]), "https:///_kodo/a.jpg?x");
    assert_eq!(resolve(&StrMap::new(), "a.jpg", &[&c]), "https:///a.jpg");
}

#[test]
fn bucket_without_cdn_domain_gives_empty_host() {
    let c = magic("c", &[("cos", "c=1")]);
    assert_eq!(resolve(&index(), "_bare/a.jpg", &[&c]), "https:///_bare/a.jpg?c=1");
}

#[test]
fn tag_without_slash_is_the_whole_path() {
    assert_eq!(resolve(&index(), "_cos", &[]), "https://cdn.example.com/_cos");
    assert_eq!(resolve(&index(), "_cos?x", &[]), "https://cdn.example.com/_cos?x");
    assert_eq!(resolve(&index(), "", &[]), "https://cdn.example.com/");
}
