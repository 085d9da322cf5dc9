use load_balancer::db::RedisClient;
use load_balancer::middleware::{ApiResponse, Method, ServerClient, StaticServerData, UpstreamRequest};
use load_balancer::services::{check, mean_latency, server_status};

fn backend(url: &str, weight: u32) -> StaticServerData {
    StaticServerData { url: url.to_string(), weight }
}

fn means(store: &RedisClient) -> Vec<(String, u32)> {
    let t = store.get_all_server_mean_latency().unwrap();
    (0..t.len()).map(|i| (t.key_at(i).clone(), *t.value_at(i))).collect()
}

#[test]
fn the_mean_of_no_samples_is_zero() {
    assert_eq!(mean_latency(vec![]), 0);
}

#[test]
fn the_mean_is_rounded_down() {
    assert_eq!(mean_latency(vec![5]), 5);
    assert_eq!(mean_latency(vec![1, 2]), 1);
    assert_eq!(mean_latency(vec![1, 2, 4]), 2);
    assert_eq!(mean_latency(vec![10, 20, 30, 40]), 25);
    assert_eq!(mean_latency(vec![0, 0, 1]), 0);
    assert_eq!(mean_latency(vec![3, 3, 3, 2]), 2);
    assert_eq!(mean_latency(vec![7, 8, 9, 10, 11, 12, 13]), 10);
}

#[test]
fn the_mean_of_huge_samples_does_not_overflow() {
    assert_eq!(mean_latency(vec![u128::MAX]), u128::MAX);
    assert_eq!(mean_latency(vec![u128::MAX, u128::MAX]), u128::MAX);
    assert_eq!(mean_latency(vec![u128::MAX, u128::MAX, u128::MAX]), u128::MAX);
    assert_eq!(mean_latency(vec![u128::MAX, 0]), u128::MAX / 2);
    assert_eq!(mean_latency(vec![u128::MAX, 1]), u128::MAX / 2 + 1);
    assert_eq!(mean_latency(vec![u128::MAX, u128::MAX - 1, u128::MAX - 2]), u128::MAX - 1);
    assert_eq!(mean_latency(vec![u128::MAX - 1, u128::MAX, 0, 3]), u128::MAX / 2 + 1);
}

#[test]
fn the_mean_agrees_with_the_plain_formula() {
    let samples: Vec<u128> = (0..97).map(|i| (i * i * 31 + 7) % 1000).collect();
    let expected = samples.iter().sum::<u128>() / samples.len() as u128;
    assert_eq!(mean_latency(samples), expected);
}

#[test]
fn the_aggregator_writes_the_mean_of_every_registered_backend() {
    let mut store = RedisClient::init_redis(
        "redis://store",
        vec![backend("https://a/", 1), backend("https://b/", 1)],
    )
    .unwrap();
    for ms in [100, 200, 301] {
        store.update_server_latency_record("https://a/", ms).unwrap();
    }
    check(&mut store);
    assert_eq!(
        means(&store),
        vec![("https://a/".to_string(), 200), ("https://b/".to_string(), 0)]
    );
    assert_eq!(store.get_server_latency_record("https://a/"), Ok(vec![100, 200, 301]));
}

#[test]
fn the_aggregator_leaves_other_means_alone() {
    let mut store = RedisClient::init_redis("redis://store", vec![backend("https://a/", 1)])
        .unwrap();
    store.update_server_mean_latency("https://x/", 9).unwrap();
    store.update_server_mean_latency("https://a/", 77).unwrap();
    store.update_server_latency_record("https://x/", 1000).unwrap();
    check(&mut store);
    assert_eq!(
        means(&store),
        vec![("https://x/".to_string(), 9), ("https://a/".to_string(), 0)]
    );
}

#[test]
fn the_aggregator_is_idempotent() {
    let mut store = RedisClient::init_redis(
        "redis://store",
        vec![backend("https://a/", 1), backend("https://b/", 2)],
    )
    .unwrap();
    for ms in [3, 4, 8] {
        store.update_server_latency_record("https://a/", ms).unwrap();
    }
    store.update_server_latency_record("https://b/", 11).unwrap();
    check(&mut store);
    let once = means(&store);
    assert_eq!(once, vec![("https://a/".to_string(), 5), ("https://b/".to_string(), 11)]);
    check(&mut store);
    assert_eq!(means(&store), once);
}

#[test]
fn the_aggregator_follows_new_samples() {
    let mut store = RedisClient::init_redis("redis://store", vec![backend("https://a/", 1)])
        .unwrap();
    store.update_server_latency_record("https://a/", 10).unwrap();
    check(&mut store);
    assert_eq!(means(&store), vec![("https://a/".to_string(), 10)]);
    store.update_server_latency_record("https://a/", 31).unwrap();
    check(&mut store);
    assert_eq!(means(&store), vec![("https://a/".to_string(), 20)]);
}

#[test]
fn the_aggregator_does_nothing_where_the_backends_cannot_be_read() {
    let mut store = RedisClient::init_redis("redis://store", vec![backend("https://a/", 1)])
        .unwrap();
    store.update_server_url("junk").unwrap();
    store.update_server_latency_record("https://a/", 10).unwrap();
    check(&mut store);
    assert_eq!(means(&store), vec![]);
}

#[test]
fn server_status_is_ok_where_no_probe_failed() {
    let mut store = RedisClient::new("redis://store");
    assert_eq!(server_status(&mut store, vec![]), Ok(()));
    assert_eq!(
        server_status(
            &mut store,
            vec![("https://a/".to_string(), true), ("https://b/".to_string(), true)]
        ),
        Ok(())
    );
    let health = store.get_all_server_health().unwrap();
    assert_eq!(health.len(), 2);
    assert_eq!(health.get("https://a/"), Some(&true));
    assert_eq!(health.get("https://b/"), Some(&true));
}

#[test]
fn server_status_lists_the_backends_that_failed() {
    let mut store = RedisClient::new("redis://store");
    assert_eq!(
        server_status(
            &mut store,
            vec![
                ("https://a/".to_string(), false),
                ("https://b/".to_string(), true),
                ("https://c/".to_string(), false),
                ("https://a/".to_string(), false),
            ]
        ),
        Err(vec!["https://a/".to_string(), "https://c/".to_string(), "https://a/".to_string()])
    );
    let health = store.get_all_server_health().unwrap();
    assert_eq!(health.len(), 3);
    assert_eq!(health.get("https://a/"), Some(&false));
    assert_eq!(health.get("https://b/"), Some(&true));
    assert_eq!(health.get("https://c/"), Some(&false));
}

#[test]
fn the_last_probe_of_a_backend_decides_its_health() {
    let mut store = RedisClient::new("redis://store");
    let round = vec![("https://a/".to_string(), false), ("https://a/".to_string(), true)];
    assert_eq!(server_status(&mut store, round), Err(vec!["https://a/".to_string()]));
    assert_eq!(store.get_all_server_health().unwrap().get("https://a/"), Some(&true));
    assert_eq!(server_status(&mut store, vec![("https://a/".to_string(), false)]).is_err(), true);
    assert_eq!(store.get_all_server_health().unwrap().get("https://a/"), Some(&false));
}

#[test]
fn the_prober_leaves_the_registration_alone() {
    let mut store = RedisClient::init_redis("redis://store", vec![backend("https://a/", 2)])
        .unwrap();
    store.update_server_load("https://a/", 3).unwrap();
    let _ = server_status(&mut store, vec![("https://a/".to_string(), false)]);
    let listed: Vec<String> =
        store.get_all_server_url().unwrap().into_iter().map(|b| b.url).collect();
    assert_eq!(listed, vec!["https://a/"]);
    assert_eq!(store.get_all_server_weights().unwrap().get("https://a/"), Some(&2));
    assert_eq!(store.get_server_load("https://a/"), Ok(Some(3)));
}

#[test]
fn a_probe_asks_for_status() {
    let server = ServerClient { url: "https://a/api/".to_string() };
    assert_eq!(
        server.status_request(),
        Ok(UpstreamRequest { method: Method::Get, url: "https://a/status".to_string(), body: None })
    );
}

#[test]
fn a_backend_is_available_on_a_status_of_success_only() {
    let server = ServerClient { url: "https://a/".to_string() };
    for status in [200u16, 201, 204, 299] {
        assert!(server.is_available(Some(status)), "{}", status);
        assert!(ServerClient::probe_outcome(true, Some(status)));
        assert!(ApiResponse::new(status, String::new()).is_success());
    }
    for status in [0u16, 100, 199, 300, 301, 404, 500, 503, u16::MAX] {
        assert!(!server.is_available(Some(status)), "{}", status);
        assert!(!ServerClient::probe_outcome(true, Some(status)));
        assert!(!ApiResponse::new(status, String::new()).is_success());
    }
    assert!(!server.is_available(None));
    assert!(!ServerClient::probe_outcome(true, None));
    assert!(!ServerClient::probe_outcome(false, Some(200)));
}
