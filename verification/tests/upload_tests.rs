use xclouder::cloud_client::{CloudClient, UploadOpts};
use xclouder::config::{BucketSource, CloudSource, Config};
use xclouder::error::XError;
use xclouder::network::NetworkInfo;
use xclouder::strategy::UrlRes;
use xclouder::upload::{DomainSwitch, UploadAction, UploadEvent, UploadStart, UploadState};
use xclouder::utils::{fill_name, Counter};
use xclouder::{Clouder, ClouderOptions, UploadOptions};

fn bucket(name: &str, cloud_name: &str, domain: &str, fallback: Option<&str>) -> BucketSource {
    BucketSource {
        name: name.to_string(),
        domain: Some(domain.to_string()),
        cdn_domain: Some(domain.to_string()),
        fallback: fallback.map(|s| s.to_string()),
        cloud: Some("mock".to_string()),
        cloud_name: Some(cloud_name.to_string()),
        grayscale: None,
    }
}

fn single() -> Config {
    Config {
        cloud_source: vec![CloudSource {
            name: "_mock".to_string(),
            cloud: Some("mock".to_string()),
            grayscale: None,
            buckets: vec![bucket("test", "_mock", "test.mock.com", None)],
        }],
        cloud_magics: vec![],
    }
}

fn with_fallback() -> Config {
    Config {
        cloud_source: vec![
            CloudSource {
                name: "_mock".to_string(),
                cloud: Some("mock".to_string()),
                grayscale: None,
                buckets: vec![bucket("test", "_mock", "test.mock.com", Some("_mock2.test"))],
            },
            CloudSource {
                name: "_mock2".to_string(),
                cloud: Some("mock".to_string()),
                grayscale: None,
                buckets: vec![bucket("test", "_mock2", "test2.mock.com", None)],
            },
        ],
        cloud_magics: vec![],
    }
}

fn clouder(config: Config) -> Clouder {
    let mut clouder = Clouder::new(ClouderOptions { strategy: vec!["mock".to_string()] });
    clouder.init(None, Some(config));
    clouder
}

fn options(disable_retry: bool, manual_retry: bool) -> UploadOptions {
    UploadOptions {
        cloud_name: Some("_mock".to_string()),
        disable_retry,
        manual_retry,
        openid: Some("test_user".to_string()),
    }
}

fn wifi() -> NetworkInfo {
    NetworkInfo {
        has_system_proxy: false,
        signal_strength: 100,
        network_type: "wifi".to_string(),
        dns_error: false,
        check_error: None,
    }
}

/// What the host and the strategies do in a test.
struct World {
    upload_ok: bool,
    sts_ok: bool,
    network_type: Option<String>,
    reachable: Vec<String>,
    key: String,
}

impl World {
    fn new(upload_ok: bool) -> World {
        World {
            upload_ok,
            sts_ok: true,
            network_type: Some("wifi".to_string()),
            reachable: vec![],
            key: String::new(),
        }
    }
}

/// What a run asked the world for.
#[derive(Default)]
struct Trace {
    sts: Vec<String>,
    uploads: Vec<String>,
    probes: Vec<String>,
    networks: usize,
    uploads_before_first_probe: Option<usize>,
}

fn drive(
    clouder: &mut Clouder,
    world: &World,
    start: UploadStart,
) -> (Result<String, XError>, UploadState, Trace, UploadAction) {
    let UploadStart { mut state, mut action, .. } = start;
    let mut trace = Trace::default();
    for _ in 0..1000 {
        let event = match &action {
            UploadAction::GetSts { strategy, bucket_source } => {
                assert_eq!(*strategy, 0);
                trace.sts.push(bucket_source.domain.clone().unwrap());
                if world.sts_ok {
                    UploadEvent::StsReady
                } else {
                    UploadEvent::StsFailed(XError::NetworkError("sts".to_string()))
                }
            }
            UploadAction::Upload { strategy, bucket_source } => {
                assert_eq!(*strategy, 0);
                let domain = bucket_source.domain.clone().unwrap();
                trace.uploads.push(domain.clone());
                if world.upload_ok {
                    UploadEvent::Uploaded(UrlRes {
                        base_url: format!("https://{}", domain),
                        key: state.opts().key.clone(),
                        domain,
                        bucket: bucket_source.name.clone(),
                    })
                } else {
                    UploadEvent::UploadFailed(XError::UploadFailed(format!(
                        "attempt {}",
                        trace.uploads.len()
                    )))
                }
            }
            UploadAction::CheckDns { domain } => {
                if trace.uploads_before_first_probe.is_none() {
                    trace.uploads_before_first_probe = Some(trace.uploads.len());
                }
                trace.probes.push(domain.clone());
                UploadEvent::Dns(Ok(world.reachable.contains(domain)))
            }
            UploadAction::CheckNetwork => {
                trace.networks += 1;
                match &world.network_type {
                    Some(kind) => UploadEvent::Network(Ok(NetworkInfo {
                        network_type: kind.clone(),
                        ..wifi()
                    })),
                    None => UploadEvent::Network(Err(XError::NetworkError("down".to_string()))),
                }
            }
            UploadAction::Succeed { url } => {
                assert!(state.is_done());
                return (Ok(url.clone()), state, trace, action);
            }
            UploadAction::Fail { error, .. } => {
                assert!(state.is_done());
                return (Err(error.clone()), state, trace, action);
            }
        };
        let _ = &world.key;
        let next = clouder.upload_step(state, event);
        state = next.0;
        action = next.1;
    }
    panic!("the upload did not end");
}

#[test]
fn test_upload() {
    let mut clouder = clouder(single());
    let start = clouder
        .upload("test", "test.jpg", "test.jpg".to_string(), options(false, false))
        .unwrap();
    let (result, _, trace, _) = drive(&mut clouder, &World::new(true), start);

    assert!(result.is_ok());
    let url = result.unwrap();
    assert!(url.contains("test.mock.com"));
    assert_eq!(url, "https://test.mock.com/_mock/test.jpg");
    assert_eq!(trace.uploads.len(), 1);
    assert_eq!(trace.sts.len(), 1);
    assert_eq!(trace.networks, 0);
}

#[test]
fn test_upload_with_auto_name() {
    let mut clouder = clouder(single());
    let mut counter = Counter::new();
    let start = clouder
        .upload(
            "test",
            "test.jpg",
            fill_name(&mut counter, "test.jpg", "test_user"),
            options(false, false),
        )
        .unwrap();
    let (result, _, _, _) = drive(&mut clouder, &World::new(true), start);

    assert!(result.is_ok());
    let url = result.unwrap();
    assert!(url.contains("test.mock.com"));
    assert!(url.contains("test_user/"));
}

#[test]
fn test_upload_with_retry() {
    let mut clouder = clouder(with_fallback());
    let start = clouder
        .upload("test", "test.jpg", "test.jpg".to_string(), options(false, false))
        .unwrap();
    let (result, _, _, _) = drive(&mut clouder, &World::new(true), start);

    assert!(result.is_ok());
}

#[test]
fn request_key_and_default_cloud() {
    let mut config = single();
    config.cloud_source[0].name = "_main".to_string();
    let mut clouder = clouder(config);
    let opts = UploadOptions { cloud_name: None, disable_retry: false, manual_retry: false, openid: None };
    let UploadStart { announce, state, action } = clouder
        .upload_with("test", "dir/a.jpg", "u/a.jpg".to_string(), opts, 0, 77)
        .unwrap();
    assert_eq!(announce.key, "_main/u/a.jpg");
    assert_eq!(state.opts().key, "_main/u/a.jpg");
    assert_eq!(state.opts().bucket, "test");
    assert_eq!(state.opts().filename, "u/a.jpg");
    assert_eq!(state.opts().file_path, "dir/a.jpg");
    assert_eq!(state.opts().up_id, 77);
    assert_eq!(state.retry_count(), 0);
    assert_eq!(state.errors().len(), 0);
    assert_eq!(state.bucket_source().domain.as_deref(), Some("test.mock.com"));
    assert!(!state.is_done());
    assert!(matches!(action, UploadAction::GetSts { strategy: 0, .. }));
}

#[test]
fn upload_to_unknown_bucket_is_refused() {
    let mut clouder = clouder(single());
    assert!(matches!(
        clouder.upload("nope", "a.jpg", "a.jpg".to_string(), options(false, false)),
        Err(XError::BucketNotFound(_))
    ));
    let opts = UploadOptions { cloud_name: None, disable_retry: false, manual_retry: false, openid: None };
    assert!(matches!(
        clouder.upload("test", "a.jpg", "a.jpg".to_string(), opts),
        Err(XError::CloudNotFound)
    ));
    let mut empty = Clouder::new(ClouderOptions { strategy: vec![] });
    assert!(matches!(
        empty.upload("test", "a.jpg", "a.jpg".to_string(), options(false, false)),
        Err(XError::InvalidConfig)
    ));
}

#[test]
fn failing_upload_is_tried_five_times() {
    let mut clouder = clouder(single());
    let start = clouder
        .upload("test", "test.jpg", "test.jpg".to_string(), options(false, false))
        .unwrap();
    let (result, state, trace, action) = drive(&mut clouder, &World::new(false), start);

    match result {
        Err(XError::UploadFailed(text)) => assert_eq!(text, "Upload failed after 5 retries"),
        other => panic!("unexpected {:?}", other),
    }
    assert_eq!(trace.uploads.len(), 5);
    assert_eq!(trace.sts.len(), 5);
    assert_eq!(trace.networks, 4);
    assert_eq!(trace.probes.len(), 0);
    assert_eq!(state.retry_count(), 5);
    assert_eq!(state.errors().len(), 5);
    match action {
        UploadAction::Fail { error, retry_count, errors } => {
            assert_eq!(error.message(), "Upload failed: Upload failed after 5 retries");
            assert_eq!(retry_count, 5);
            let texts: Vec<String> = errors.iter().map(|e| e.message()).collect();
            assert_eq!(texts[0], "Upload failed: attempt 1");
            assert_eq!(texts.len(), 5);
            assert_eq!(texts[4], "Upload failed: attempt 5");
        }
        other => panic!("unexpected {:?}", other),
    }
}

#[test]
fn domain_switch_comes_after_the_fourth_failure() {
    let mut clouder = clouder(with_fallback());
    let start = clouder
        .upload("test", "test.jpg", "test.jpg".to_string(), options(false, false))
        .unwrap();
    let (result, _, trace, _) = drive(&mut clouder, &World::new(false), start);

    assert!(result.is_err());
    assert_eq!(trace.uploads.len(), 5);
    assert_eq!(trace.uploads_before_first_probe, Some(4));
    assert_eq!(trace.probes, vec!["test2.mock.com"]);
    // the domain did not resolve, so the bucket stayed and the network was asked for each time
    assert!(trace.uploads.iter().all(|d| d == "test.mock.com"));
    assert_eq!(trace.networks, 4);
}

#[test]
fn reachable_fallback_is_adopted_without_network_check() {
    let mut clouder = clouder(with_fallback());
    let start = clouder
        .upload("test", "test.jpg", "test.jpg".to_string(), options(false, false))
        .unwrap();
    let mut world = World::new(false);
    world.reachable = vec!["test2.mock.com".to_string()];
    let (result, state, trace, _) = drive(&mut clouder, &world, start);

    assert!(result.is_err());
    assert_eq!(
        trace.uploads,
        vec!["test.mock.com", "test.mock.com", "test.mock.com", "test.mock.com", "test2.mock.com"]
    );
    // the fifth transfer goes to the new bucket at once, and its failure ends the upload
    assert_eq!(trace.probes, vec!["test2.mock.com"]);
    assert_eq!(trace.networks, 3);
    assert_eq!(state.bucket_source().domain.as_deref(), Some("test2.mock.com"));
    // the request itself keeps the bucket that it was bound to
    assert_eq!(state.opts().bucket_source.domain.as_deref(), Some("test.mock.com"));
}

#[test]
fn no_retry_means_one_attempt() {
    let mut clouder = clouder(with_fallback());
    let start = clouder
        .upload("test", "test.jpg", "test.jpg".to_string(), options(true, false))
        .unwrap();
    let (result, state, trace, _) = drive(&mut clouder, &World::new(false), start);

    match result {
        Err(XError::UploadFailed(text)) => assert_eq!(text, "Upload failed after 0 retries"),
        other => panic!("unexpected {:?}", other),
    }
    assert_eq!(trace.uploads.len(), 1);
    assert_eq!(trace.networks, 0);
    assert_eq!(trace.probes.len(), 0);
    assert_eq!(state.retry_count(), 0);
    assert_eq!(state.errors().len(), 1);
}

#[test]
fn refused_credentials_end_the_upload() {
    let mut clouder = clouder(with_fallback());
    let start = clouder
        .upload("test", "test.jpg", "test.jpg".to_string(), options(false, false))
        .unwrap();
    let mut world = World::new(false);
    world.sts_ok = false;
    let (result, state, trace, _) = drive(&mut clouder, &world, start);

    match result {
        Err(XError::UploadFailed(text)) => assert_eq!(text, "Upload failed after 0 retries"),
        other => panic!("unexpected {:?}", other),
    }
    assert_eq!(trace.sts.len(), 1);
    assert_eq!(trace.uploads.len(), 0);
    assert_eq!(trace.networks, 0);
    assert_eq!(state.errors().len(), 1);
    assert_eq!(state.errors()[0].message(), "Network error: sts");
}

#[test]
fn missing_network_ends_the_upload() {
    let mut clouder = clouder(single());
    let start = clouder
        .upload("test", "test.jpg", "test.jpg".to_string(), options(false, false))
        .unwrap();
    let mut world = World::new(false);
    world.network_type = Some("none".to_string());
    let (result, _, trace, _) = drive(&mut clouder, &world, start);

    match result {
        Err(XError::UploadFailed(text)) => assert_eq!(text, "Upload failed after 1 retries"),
        other => panic!("unexpected {:?}", other),
    }
    assert_eq!(trace.uploads.len(), 1);
    assert_eq!(trace.networks, 1);
}

#[test]
fn failed_network_report_counts_as_unknown() {
    let mut clouder = clouder(single());
    let start = clouder
        .upload("test", "test.jpg", "test.jpg".to_string(), options(false, false))
        .unwrap();
    let mut world = World::new(false);
    world.network_type = None;
    let (_, _, trace, _) = drive(&mut clouder, &world, start);
    assert_eq!(trace.uploads.len(), 5);
}

#[test]
fn non_ascii_path_is_rejected_at_once() {
    let mut clouder = clouder(single());
    let UploadStart { state, action, .. } = clouder
        .upload("test", "图片.jpg", "test.jpg".to_string(), options(false, true))
        .unwrap();
    assert!(state.is_done());
    match action {
        UploadAction::Fail { error, retry_count, errors } => {
            assert_eq!(error.message(), "Upload failed: Invalid file path");
            assert_eq!(retry_count, 0);
            assert_eq!(errors.len(), 0);
        }
        other => panic!("unexpected {:?}", other),
    }
    // nothing was kept for a manual retry
    let UploadStart { state, .. } = clouder
        .upload("test", "图片.jpg", "other.jpg".to_string(), options(false, true))
        .unwrap();
    assert_eq!(state.opts().filename, "other.jpg");
}

#[test]
fn bucket_without_strategy_is_a_configuration_error() {
    let mut clouder = Clouder::new(ClouderOptions { strategy: vec!["other".to_string()] });
    clouder.init(None, Some(single()));
    let UploadStart { state, action, .. } = clouder
        .upload("test", "test.jpg", "test.jpg".to_string(), options(false, false))
        .unwrap();
    assert!(state.is_done());
    match action {
        UploadAction::Fail { error, retry_count, errors } => {
            assert!(matches!(error, XError::InvalidConfig));
            assert_eq!(retry_count, 0);
            assert_eq!(errors.len(), 0);
        }
        other => panic!("unexpected {:?}", other),
    }

    let mut config = single();
    config.cloud_source[0].buckets[0].cloud = None;
    let mut clouder = Clouder::new(ClouderOptions { strategy: vec!["mock".to_string()] });
    clouder.init(None, Some(config));
    let UploadStart { action, .. } = clouder
        .upload("test", "test.jpg", "test.jpg".to_string(), options(false, false))
        .unwrap();
    assert!(matches!(action, UploadAction::Fail { error: XError::InvalidConfig, .. }));
}

#[test]
fn manual_retry_reuses_the_kept_request() {
    let mut clouder = clouder(single());
    let first = clouder
        .upload_with("test", "photo.jpg", "first.jpg".to_string(), options(true, true), 0, 1)
        .unwrap();
    let (result, _, _, _) = drive(&mut clouder, &World::new(false), first);
    assert!(result.is_err());

    // the later call names another file name and other options; the kept ones are used
    let second = clouder
        .upload_with("test", "photo.jpg", "second.jpg".to_string(), options(false, true), 0, 2)
        .unwrap();
    assert_eq!(second.announce.key, "_mock/second.jpg");
    assert_eq!(second.state.opts().key, "_mock/first.jpg");
    assert_eq!(second.state.opts().filename, "first.jpg");
    assert_eq!(second.state.opts().up_id, 1);
    assert!(second.state.opts().disable_retry);
    let (result, _, trace, _) = drive(&mut clouder, &World::new(true), second);
    assert_eq!(result.unwrap(), "https://test.mock.com/_mock/first.jpg");
    assert_eq!(trace.uploads.len(), 1);

    // a call that does not ask for a manual retry is carried out as it is
    let third = clouder
        .upload_with("test", "photo.jpg", "third.jpg".to_string(), options(false, false), 0, 3)
        .unwrap();
    assert_eq!(third.state.opts().key, "_mock/third.jpg");
    // another path has nothing kept
    let fourth = clouder
        .upload_with("test", "other.jpg", "fourth.jpg".to_string(), options(false, true), 0, 4)
        .unwrap();
    assert_eq!(fourth.state.opts().key, "_mock/fourth.jpg");
}

#[test]
fn failure_without_manual_retry_keeps_nothing() {
    let mut clouder = clouder(single());
    let first = clouder
        .upload_with("test", "photo.jpg", "first.jpg".to_string(), options(true, false), 0, 1)
        .unwrap();
    let (result, _, _, _) = drive(&mut clouder, &World::new(false), first);
    assert!(result.is_err());
    let second = clouder
        .upload_with("test", "photo.jpg", "second.jpg".to_string(), options(false, true), 0, 2)
        .unwrap();
    assert_eq!(second.state.opts().key, "_mock/second.jpg");
}

#[test]
fn success_keeps_nothing() {
    let mut clouder = clouder(single());
    let first = clouder
        .upload_with("test", "photo.jpg", "first.jpg".to_string(), options(false, true), 0, 1)
        .unwrap();
    let (result, _, _, _) = drive(&mut clouder, &World::new(true), first);
    assert!(result.is_ok());
    let second = clouder
        .upload_with("test", "photo.jpg", "second.jpg".to_string(), options(false, true), 0, 2)
        .unwrap();
    assert_eq!(second.state.opts().key, "_mock/second.jpg");
}

#[test]
fn events_that_do_not_answer_are_ignored() {
    let mut client = CloudClient::new();
    client.load_strategy("mock", 0);
    client.load_conf(Some(single()), None);
    let request = UploadOpts {
        bucket_source: bucket("test", "_mock", "test.mock.com", None),
        bucket: "test".to_string(),
        filename: "a.jpg".to_string(),
        file_path: "a.jpg".to_string(),
        key: "_mock/a.jpg".to_string(),
        up_id: 0,
        disable_retry: false,
        manual_retry: false,
    };
    let UploadStart { state, action, .. } = client.upload_begin(request);
    assert!(matches!(action, UploadAction::GetSts { .. }));
    let (state, action) = client.upload_step(state, UploadEvent::Dns(Ok(true)));
    assert!(matches!(action, UploadAction::GetSts { .. }));
    let (state, action) = client.upload_step(state, UploadEvent::UploadFailed(XError::InvalidConfig));
    assert!(matches!(action, UploadAction::GetSts { .. }));
    assert_eq!(state.errors().len(), 0);
    let (state, action) = client.upload_step(state, UploadEvent::StsReady);
    assert!(matches!(action, UploadAction::Upload { .. }));
    let (state, action) = client.upload_step(state, UploadEvent::StsReady);
    assert!(matches!(action, UploadAction::Upload { .. }));
    let (state, action) = client.upload_step(
        state,
        UploadEvent::Uploaded(UrlRes {
            base_url: "https://x".to_string(),
            key: "k".to_string(),
            domain: "x".to_string(),
            bucket: "b".to_string(),
        }),
    );
    assert!(matches!(&action, UploadAction::Succeed { url } if url == "https://x/k"));
    let (state, action) = client.upload_step(state, UploadEvent::UploadFailed(XError::InvalidConfig));
    assert!(matches!(&action, UploadAction::Succeed { url } if url == "https://x/k"));
    assert!(state.is_done());
}

#[test]
fn candidates_without_domain_are_passed_over() {
    let mut config = with_fallback();
    config.cloud_source[0].buckets[0].fallback = Some("_mock2.test".to_string());
    config.cloud_source[1].buckets[0].domain = None;
    config.cloud_source[1].buckets[0].fallback = Some("_mock3.test".to_string());
    config.cloud_source.push(CloudSource {
        name: "_mock3".to_string(),
        cloud: Some("mock".to_string()),
        grayscale: None,
        buckets: vec![bucket("test", "_mock3", "test3.mock.com", None)],
    });
    let mut clouder = clouder(config);
    let start = clouder
        .upload("test", "test.jpg", "test.jpg".to_string(), options(false, false))
        .unwrap();
    let mut world = World::new(false);
    world.reachable = vec!["test3.mock.com".to_string()];
    let (_, state, trace, _) = drive(&mut clouder, &world, start);
    assert_eq!(trace.probes, vec!["test3.mock.com"]);
    assert_eq!(state.bucket_source().domain.as_deref(), Some("test3.mock.com"));
    assert_eq!(trace.uploads[4], "test3.mock.com");
}

fn switch_config() -> Config {
    let mut config = with_fallback();
    config.cloud_source[1].buckets[0].fallback = Some("_mock3.test".to_string());
    config.cloud_source.push(CloudSource {
        name: "_mock3".to_string(),
        cloud: Some("mock".to_string()),
        grayscale: None,
        buckets: vec![bucket("test", "_mock3", "test3.mock.com", Some("_mock.test"))],
    });
    config
}

fn switch_from_first(client: &CloudClient) -> DomainSwitch {
    let start = client.current_bucket_source("test", "_mock", false).unwrap();
    client.try_switch_domain(start)
}

#[test]
fn switch_takes_the_first_reachable_candidate() {
    let mut client = CloudClient::new();
    client.load_conf(Some(switch_config()), None);

    let search = switch_from_first(&client);
    assert_eq!(search.domain(), Some("test2.mock.com"));
    assert!(search.outcome().is_none());
    let search = search.answer(Ok(true));
    assert_eq!(search.domain(), None);
    assert_eq!(search.outcome().unwrap().unwrap().domain.as_deref(), Some("test2.mock.com"));
    // a search that has ended stays as it is
    let search = search.answer(Ok(false));
    assert_eq!(search.outcome().unwrap().unwrap().domain.as_deref(), Some("test2.mock.com"));

    let search = switch_from_first(&client).answer(Ok(false));
    assert_eq!(search.domain(), Some("test3.mock.com"));
    let search = search.answer(Ok(true));
    assert_eq!(search.outcome().unwrap().unwrap().domain.as_deref(), Some("test3.mock.com"));
}

#[test]
fn switch_without_reachable_candidate_is_a_network_error() {
    let mut client = CloudClient::new();
    client.load_conf(Some(switch_config()), None);

    let search = switch_from_first(&client)
        .answer(Ok(false))
        .answer(Err(XError::NetworkError("dns".to_string())));
    assert_eq!(search.domain(), None);
    match search.outcome() {
        Some(Err(XError::NetworkError(text))) => assert_eq!(text, "No available domain"),
        other => panic!("unexpected {:?}", other),
    }
    let search = search.answer(Ok(true));
    assert!(matches!(search.outcome(), Some(Err(XError::NetworkError(_)))));

    // no fallback at all
    let mut lonely = CloudClient::new();
    lonely.load_conf(Some(single()), None);
    let start = lonely.current_bucket_source("test", "_mock", false).unwrap();
    let search = lonely.try_switch_domain(start);
    assert_eq!(search.domain(), None);
    assert!(matches!(search.outcome(), Some(Err(XError::NetworkError(_)))));
}

#[test]
fn switch_passes_over_candidates_without_domain() {
    let mut config = switch_config();
    config.cloud_source[1].buckets[0].domain = None;
    let mut client = CloudClient::new();
    client.load_conf(Some(config), None);
    let search = switch_from_first(&client);
    assert_eq!(search.domain(), Some("test3.mock.com"));
    let search = search.answer(Ok(false));
    assert!(matches!(search.outcome(), Some(Err(XError::NetworkError(_)))));
}
