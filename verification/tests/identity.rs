use load_balancer::error::Error;
use load_balancer::middleware::{ServerClient, StaticServerData};

fn other(text: &str) -> Error {
    Error::Other(text.to_string())
}

#[test]
fn an_entry_is_read_into_url_and_weight() {
    let data = StaticServerData::new("https://a/$3").unwrap();
    assert_eq!(data, StaticServerData { url: "https://a/".to_string(), weight: 3 });
}

#[test]
fn an_entry_round_trips() {
    let data = StaticServerData::new("https://a/$3").unwrap();
    assert_eq!(data.to_entry(), "https://a/$3");
    assert_eq!(StaticServerData::new(&data.to_entry()), Ok(data));
}

#[test]
fn an_entry_round_trips_but_for_the_trailing_slash() {
    let data = StaticServerData::new("https://a$3").unwrap();
    assert_eq!(data.url, "https://a/");
    assert_eq!(data.to_entry(), "https://a/$3");
}

#[test]
fn the_url_is_kept_in_normal_form() {
    let data = StaticServerData::new("HTTPS://Example.COM:443/x/../y$12").unwrap();
    assert_eq!(data.url, "https://example.com/y");
    assert_eq!(data.weight, 12);
}

#[test]
fn an_entry_is_cut_at_its_first_dollar() {
    assert_eq!(
        StaticServerData::split_entry("https://a/$3"),
        Ok(("https://a/".to_string(), 3))
    );
    assert_eq!(
        StaticServerData::split_entry("https://a/$b$3"),
        Err(other("Invalid weight, expected a positive integer"))
    );
    assert_eq!(StaticServerData::split_entry("$7"), Ok((String::new(), 7)));
}

#[test]
fn an_entry_without_a_dollar_is_refused() {
    let fault = other("Invalid server format, expected 'url$weight'");
    assert_eq!(StaticServerData::new("https://a/"), Err(fault.clone()));
    assert_eq!(StaticServerData::new(""), Err(fault));
}

#[test]
fn an_entry_with_a_bad_weight_is_refused() {
    let fault = other("Invalid weight, expected a positive integer");
    assert_eq!(StaticServerData::new("https://a/$"), Err(fault.clone()));
    assert_eq!(StaticServerData::new("https://a/$x"), Err(fault.clone()));
    assert_eq!(StaticServerData::new("https://a/$-1"), Err(fault.clone()));
    assert_eq!(StaticServerData::new("https://a/$1.5"), Err(fault.clone()));
    assert_eq!(StaticServerData::new("https://a/$ 1"), Err(fault.clone()));
    assert_eq!(StaticServerData::new("https://a/$4294967296"), Err(fault));
}

#[test]
fn a_weight_of_zero_is_refused() {
    let fault = other("Invalid weight, expected a positive integer");
    assert_eq!(StaticServerData::new("https://a/$0"), Err(fault.clone()));
    assert_eq!(StaticServerData::from_parts(Some("https://a/".to_string()), 0), Err(fault));
}

#[test]
fn the_largest_weight_is_read() {
    let data = StaticServerData::new("https://a/$4294967295").unwrap();
    assert_eq!(data.weight, u32::MAX);
    assert_eq!(StaticServerData::new("https://a/$+7").unwrap().weight, 7);
    assert_eq!(StaticServerData::new("https://a/$007").unwrap().weight, 7);
}

#[test]
fn an_entry_with_a_bad_url_is_refused() {
    let fault = other("Invalid URL, expected an absolute URL");
    assert_eq!(StaticServerData::new("not a url$1"), Err(fault.clone()));
    assert_eq!(StaticServerData::new("/relative$1"), Err(fault.clone()));
    assert_eq!(StaticServerData::new("$1"), Err(fault.clone()));
    assert_eq!(StaticServerData::from_parts(None, 1), Err(fault));
}

#[test]
fn from_parts_keeps_its_parts() {
    assert_eq!(
        StaticServerData::from_parts(Some("https://a/".to_string()), 9),
        Ok(StaticServerData { url: "https://a/".to_string(), weight: 9 })
    );
}

#[test]
fn an_identity_is_written_as_json() {
    let data = StaticServerData { url: "https://a/".to_string(), weight: 3 };
    assert_eq!(data.static_data(), Ok("{\"url\":\"https://a/\",\"weight\":3}".to_string()));
}

#[test]
fn the_url_is_escaped_in_json() {
    let data = StaticServerData { url: "https://a/\"q\"\\".to_string(), weight: 10 };
    assert_eq!(
        data.static_data(),
        Ok("{\"url\":\"https://a/\\\"q\\\"\\\\\",\"weight\":10}".to_string())
    );
}

#[test]
fn write_json_frames_the_quoted_url() {
    assert_eq!(
        StaticServerData::write_json("\"u\"", 4294967295),
        "{\"url\":\"u\",\"weight\":4294967295}"
    );
    assert_eq!(StaticServerData::write_json("", 1), "{\"url\":,\"weight\":1}");
}

#[test]
fn every_url_text_is_written_as_json() {
    for url in ["", "\u{0}\u{1f}", "\"\\/", "\u{e9}\u{1f600}", "line\nbreak\ttab"] {
        let data = StaticServerData { url: url.to_string(), weight: 1 };
        let text = data.static_data().unwrap();
        assert!(text.starts_with("{\"url\":\""), "{:?}", text);
        assert!(text.ends_with("\",\"weight\":1}"), "{:?}", text);
    }
}

#[test]
fn an_identity_is_read_from_json() {
    let data = StaticServerData::from_json("{\"url\":\"https://a/\",\"weight\":3}".to_string());
    assert_eq!(data, Ok(StaticServerData { url: "https://a/".to_string(), weight: 3 }));
    let data =
        StaticServerData::from_json(" { \"weight\" : 8, \"url\" : \"https://b\" } ".to_string());
    assert_eq!(data, Ok(StaticServerData { url: "https://b/".to_string(), weight: 8 }));
}

#[test]
fn json_round_trips() {
    let data = StaticServerData { url: "https://a.example/p?q=1".to_string(), weight: 77 };
    let text = data.clone().static_data().unwrap();
    assert_eq!(StaticServerData::from_json(text), Ok(data));
}

#[test]
fn json_is_read_by_member_name() {
    // Other members are passed over, and of two members of one name the last counts.
    let text = "{\"weight\":1,\"extra\":[],\"url\":\"https://a/\",\"weight\":5}";
    assert_eq!(
        StaticServerData::from_json(text.to_string()),
        Ok(StaticServerData { url: "https://a/".to_string(), weight: 5 })
    );
    // An array is no identity.
    assert_eq!(
        StaticServerData::from_json("[\"https://a/\",3]".to_string()),
        Err(other("Invalid server data, expected a JSON object with 'url' and 'weight'"))
    );
}

#[test]
fn malformed_json_is_refused() {
    let fault = other("Invalid server data, expected a JSON object with 'url' and 'weight'");
    for text in [
        "",
        "https://a/",
        "{",
        "[]",
        "{\"url\":\"https://a/\"}",
        "{\"weight\":3}",
        "{\"url\":5,\"weight\":3}",
        "{\"url\":\"https://a/\",\"weight\":\"3\"}",
        "{\"url\":\"https://a/\",\"weight\":-3}",
        "{\"url\":\"https://a/\",\"weight\":1.5}",
        "{\"url\":\"https://a/\",\"weight\":4294967296}",
    ] {
        assert_eq!(StaticServerData::from_json(text.to_string()), Err(fault.clone()), "{}", text);
    }
}

#[test]
fn json_with_a_bad_identity_is_refused() {
    assert_eq!(
        StaticServerData::from_json("{\"url\":\"https://a/\",\"weight\":0}".to_string()),
        Err(other("Invalid weight, expected a positive integer"))
    );
    assert_eq!(
        StaticServerData::from_json("{\"url\":\"nowhere\",\"weight\":2}".to_string()),
        Err(other("Invalid URL, expected an absolute URL"))
    );
}

#[test]
fn members_wants_both_and_a_weight_that_fits() {
    let fault = other("Invalid server data, expected a JSON object with 'url' and 'weight'");
    assert_eq!(
        StaticServerData::members(Some("u".to_string()), Some(4294967295)),
        Ok(("u".to_string(), u32::MAX))
    );
    assert_eq!(
        StaticServerData::members(Some("u".to_string()), Some(4294967296)),
        Err(fault.clone())
    );
    assert_eq!(StaticServerData::members(None, Some(1)), Err(fault.clone()));
    assert_eq!(StaticServerData::members(Some("u".to_string()), None), Err(fault));
}

#[test]
fn a_client_is_made_of_an_identity() {
    let data = StaticServerData { url: "https://a/".to_string(), weight: 3 };
    assert_eq!(ServerClient::from(data), ServerClient { url: "https://a/".to_string() });
}
