use load_balancer::db::{RedisClient, SampleWindow, SAMPLE_WINDOW};
use load_balancer::error::Error;
use load_balancer::middleware::{ServerClient, StaticServerData};

fn backend(url: &str, weight: u32) -> StaticServerData {
    StaticServerData { url: url.to_string(), weight }
}

fn urls(backends: Vec<ServerClient>) -> Vec<String> {
    backends.into_iter().map(|b| b.url).collect()
}

#[test]
fn a_new_store_holds_nothing() {
    let store = RedisClient::new("redis://store");
    assert_eq!(urls(store.get_all_server_url().unwrap()), Vec::<String>::new());
    assert_eq!(store.get_all_server_load().unwrap().len(), 0);
    assert_eq!(store.get_all_server_weights().unwrap().len(), 0);
    assert_eq!(store.get_all_server_mean_latency().unwrap().len(), 0);
    assert_eq!(store.get_all_server_health().unwrap().len(), 0);
    assert_eq!(store.get_servers_latency_record().unwrap().len(), 0);
    assert_eq!(store.get_server_load("https://a/"), Ok(None));
    assert_eq!(store.get_server_latency_record("https://a/"), Ok(vec![]));
    assert_eq!(store.get("k"), Ok(None));
}

#[test]
fn init_registers_identity_and_weight() {
    let store = RedisClient::init_redis(
        "redis://store",
        vec![backend("https://a/", 1), backend("https://b/", 3)],
    )
    .unwrap();
    assert_eq!(urls(store.get_all_server_url().unwrap()), vec!["https://a/", "https://b/"]);
    let weights = store.get_all_server_weights().unwrap();
    assert_eq!(weights.len(), 2);
    assert_eq!(weights.get("https://a/"), Some(&1));
    assert_eq!(weights.get("https://b/"), Some(&3));
    assert_eq!(store.get_all_server_load().unwrap().len(), 0);
}

#[test]
fn registered_backends_are_listed_in_normal_form() {
    let mut store = RedisClient::new("redis://store");
    store.register(&vec![backend("https://first.example.com/", 1)]);
    store.register(&vec![
        backend("HTTPS://B.example.com", 2),
        backend("https://c.example.com/x y\"z\u{e9}\n", 4294967295),
        backend("https://d.example.com:443/\u{1f600}?q=\\", 7),
    ]);
    assert_eq!(
        urls(store.get_all_server_url().unwrap()),
        vec![
            "https://first.example.com/",
            "https://b.example.com/",
            "https://c.example.com/x%20y%22z%C3%A9",
            "https://d.example.com/%F0%9F%98%80?q=\\",
        ]
    );
    let weights = store.get_all_server_weights().unwrap();
    assert_eq!(weights.get("HTTPS://B.example.com"), Some(&2));
    assert_eq!(weights.get("https://b.example.com/"), None);
}

#[test]
fn register_does_not_deduplicate() {
    let mut store = RedisClient::new("redis://store");
    store.register(&vec![backend("https://a/", 1)]);
    store.register(&vec![backend("https://a/", 5)]);
    assert_eq!(urls(store.get_all_server_url().unwrap()), vec!["https://a/", "https://a/"]);
    let weights = store.get_all_server_weights().unwrap();
    assert_eq!(weights.len(), 1);
    assert_eq!(weights.get("https://a/"), Some(&5));
}

#[test]
fn a_malformed_entry_fails_the_listing() {
    let mut store = RedisClient::init_redis("redis://store", vec![backend("https://a/", 1)])
        .unwrap();
    store.update_server_url("https://b/").unwrap();
    let fault = Error::Other(
        "Invalid server data, expected a JSON object with 'url' and 'weight'".to_string(),
    );
    assert_eq!(store.get_all_server_url(), Err(fault.clone()));
    assert_eq!(store.get_servers_latency_record().err(), Some(fault));
}

#[test]
fn the_first_malformed_entry_names_the_fault() {
    let mut store = RedisClient::new("redis://store");
    store.update_server_url("{\"url\":\"https://a/\",\"weight\":0}").unwrap();
    store.update_server_url("nonsense").unwrap();
    assert_eq!(
        store.get_all_server_url(),
        Err(Error::Other("Invalid weight, expected a positive integer".to_string()))
    );
}

#[test]
fn an_entry_pushed_as_json_is_listed() {
    let mut store = RedisClient::new("redis://store");
    store.update_server_url("{\"url\":\"https://c\",\"weight\":2}").unwrap();
    assert_eq!(urls(store.get_all_server_url().unwrap()), vec!["https://c/"]);
}

#[test]
fn load_is_incremented() {
    let mut store = RedisClient::new("redis://store");
    assert_eq!(store.update_server_load("https://a/", 1), Ok(()));
    assert_eq!(store.update_server_load("https://a/", 1), Ok(()));
    assert_eq!(store.update_server_load("https://b/", 5), Ok(()));
    assert_eq!(store.get_server_load("https://a/"), Ok(Some(2)));
    assert_eq!(store.get_server_load("https://b/"), Ok(Some(5)));
    assert_eq!(store.get_server_load("https://c/"), Ok(None));
    let loads = store.get_all_server_load().unwrap();
    assert_eq!(loads.len(), 2);
    assert_eq!(loads.get("https://a/"), Some(&2));
}

#[test]
fn a_load_that_would_not_fit_is_refused() {
    let mut store = RedisClient::new("redis://store");
    store.update_server_load("https://a/", u32::MAX - 1).unwrap();
    assert_eq!(store.update_server_load("https://a/", 1), Ok(()));
    assert_eq!(
        store.update_server_load("https://a/", 1),
        Err(Error::RedisError("increment or decrement would overflow".to_string()))
    );
    assert_eq!(store.get_server_load("https://a/"), Ok(Some(u32::MAX)));
    assert_eq!(store.update_server_load("https://a/", 0), Ok(()));
}

#[test]
fn samples_are_appended_in_order() {
    let mut store = RedisClient::new("redis://store");
    store.update_server_latency_record("https://a/", 30).unwrap();
    store.update_server_latency_record("https://a/", 10).unwrap();
    store.update_server_latency_record("https://b/", 7).unwrap();
    assert_eq!(store.get_server_latency_record("https://a/"), Ok(vec![30, 10]));
    assert_eq!(store.get_server_latency_record("https://b/"), Ok(vec![7]));
}

#[test]
fn samples_are_bounded_to_the_most_recent() {
    let mut store = RedisClient::new("redis://store");
    for ms in 0..25u128 {
        store.update_server_latency_record("https://a/", ms).unwrap();
        let held = store.get_server_latency_record("https://a/").unwrap();
        assert!(held.len() <= SAMPLE_WINDOW);
        assert_eq!(held.last(), Some(&ms));
    }
    let expected: Vec<u128> = (5..25).collect();
    assert_eq!(store.get_server_latency_record("https://a/"), Ok(expected));
}

#[test]
fn a_full_window_drops_its_oldest_sample() {
    assert_eq!(SAMPLE_WINDOW, 20);
    let mut window = SampleWindow::new();
    for ms in 1..=20u128 {
        window = window.with(ms);
    }
    assert_eq!(window.len(), 20);
    assert_eq!(window.to_vec(), (1..=20).collect::<Vec<u128>>());
    let window = window.with(21);
    assert_eq!(window.len(), 20);
    assert_eq!(window.to_vec(), (2..=21).collect::<Vec<u128>>());
}

#[test]
fn an_empty_window_holds_one_sample_after_one_append() {
    let window = SampleWindow::new();
    assert_eq!(window.len(), 0);
    assert_eq!(window.with(u128::MAX).to_vec(), vec![u128::MAX]);
}

#[test]
fn samples_are_read_for_registered_backends_only() {
    let mut store = RedisClient::init_redis(
        "redis://store",
        vec![backend("https://a/", 1), backend("https://b/", 1)],
    )
    .unwrap();
    store.update_server_latency_record("https://a/", 4).unwrap();
    store.update_server_latency_record("https://x/", 9).unwrap();
    let records = store.get_servers_latency_record().unwrap();
    assert_eq!(records.len(), 2);
    assert_eq!(records.get("https://a/"), Some(&vec![4]));
    assert_eq!(records.get("https://b/"), Some(&vec![]));
    assert_eq!(records.get("https://x/"), None);
}

#[test]
fn mean_latency_is_set_and_read() {
    let mut store = RedisClient::new("redis://store");
    store.update_server_mean_latency("https://a/", 120).unwrap();
    store.update_server_mean_latency("https://a/", 80).unwrap();
    store.update_server_mean_latency("https://b/", u32::MAX as u128).unwrap();
    let means = store.get_all_server_mean_latency().unwrap();
    assert_eq!(means.len(), 2);
    assert_eq!(means.get("https://a/"), Some(&80));
    assert_eq!(means.get("https://b/"), Some(&u32::MAX));
}

#[test]
fn a_mean_that_does_not_fit_fails_the_reading() {
    let mut store = RedisClient::new("redis://store");
    store.update_server_mean_latency("https://a/", 1).unwrap();
    store.update_server_mean_latency("https://b/", u32::MAX as u128 + 1).unwrap();
    assert_eq!(
        store.get_all_server_mean_latency().err(),
        Some(Error::RedisError("number too large to fit in target type".to_string()))
    );
}

#[test]
fn weight_is_set_and_read() {
    let mut store = RedisClient::new("redis://store");
    store.update_server_weight("https://a/", 2).unwrap();
    store.update_server_weight("https://a/", 9).unwrap();
    let weights = store.get_all_server_weights().unwrap();
    assert_eq!(weights.len(), 1);
    assert_eq!(weights.get("https://a/"), Some(&9));
}

#[test]
fn health_is_set_and_read() {
    let mut store = RedisClient::new("redis://store");
    store.update_server_health("https://a/", false).unwrap();
    store.update_server_health("https://b/", true).unwrap();
    store.update_server_health("https://a/", true).unwrap();
    store.update_server_health("https://b/", false).unwrap();
    let health = store.get_all_server_health().unwrap();
    assert_eq!(health.len(), 2);
    assert_eq!(health.get("https://a/"), Some(&true));
    assert_eq!(health.get("https://b/"), Some(&false));
}

#[test]
fn the_endpoint_is_kept() {
    assert_eq!(RedisClient::new("redis://store:6379").endpoint(), "redis://store:6379");
}

#[test]
fn plain_keys_are_set_read_and_deleted() {
    let mut store = RedisClient::new("redis://store");
    assert_eq!(store.set("k", "v"), Ok(()));
    assert_eq!(store.get("k"), Ok(Some("v".to_string())));
    assert_eq!(store.set("k", "w"), Ok(()));
    assert_eq!(store.get("k"), Ok(Some("w".to_string())));
    assert_eq!(store.delete("k"), Ok(1));
    assert_eq!(store.delete("k"), Ok(0));
    assert_eq!(store.get("k"), Ok(None));
}

#[test]
fn the_keys_of_the_store_do_not_mix() {
    let mut store = RedisClient::new("redis://store");
    store.update_server_load("https://a/", 3).unwrap();
    store.update_server_weight("https://a/", 4).unwrap();
    store.update_server_mean_latency("https://a/", 5).unwrap();
    store.update_server_latency_record("https://a/", 6).unwrap();
    store.set("https://a/", "7").unwrap();
    assert_eq!(store.get_server_load("https://a/"), Ok(Some(3)));
    assert_eq!(store.get_all_server_weights().unwrap().get("https://a/"), Some(&4));
    assert_eq!(store.get_all_server_mean_latency().unwrap().get("https://a/"), Some(&5));
    assert_eq!(store.get_server_latency_record("https://a/"), Ok(vec![6]));
    assert_eq!(store.get("https://a/"), Ok(Some("7".to_string())));
    assert_eq!(store.delete("https://a/"), Ok(1));
    assert_eq!(store.get_server_load("https://a/"), Ok(Some(3)));
}
