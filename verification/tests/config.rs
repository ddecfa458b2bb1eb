use httpbench::config::{
    payload_index_for, url_index_for, Config, ConfigError, DelayDistribution, HttpMethod,
    RequestOrder,
};

fn config_with(method: HttpMethod, urls: Vec<String>, payloads: Vec<String>) -> Config {
    Config {
        concurrency: 1,
        requests: 1,
        order: RequestOrder::Sequential,
        delay_ms: 0,
        delay_distrib: DelayDistribution::Constant,
        http_method: method,
        urls,
        payloads,
    }
}

#[test]
fn method_parses_any_ascii_case() {
    assert_eq!(Ok(HttpMethod::Get), HttpMethod::from_str("GET"));
    assert_eq!(Ok(HttpMethod::Get), HttpMethod::from_str("get"));
    assert_eq!(Ok(HttpMethod::Post), HttpMethod::from_str("Post"));
    assert_eq!(Ok(HttpMethod::Post), HttpMethod::from_str("POST"));
    assert_eq!(Ok(HttpMethod::Put), HttpMethod::from_str("pUt"));
}

#[test]
fn method_rejects_everything_else() {
    assert_eq!(Err(()), HttpMethod::from_str("DELETE"));
    assert_eq!(Err(()), HttpMethod::from_str("GETS"));
    assert_eq!(Err(()), HttpMethod::from_str(""));
    assert_eq!(Err(()), HttpMethod::from_str("PU"));
}

#[test]
fn method_names_on_the_wire() {
    assert_eq!("GET", HttpMethod::Get.as_str());
    assert_eq!("POST", HttpMethod::Post.as_str());
    assert_eq!("PUT", HttpMethod::Put.as_str());
}

#[test]
fn validate_rejects_empty_targets() {
    let config = config_with(HttpMethod::Get, Vec::new(), Vec::new());
    assert_eq!(Err(ConfigError::EmptyTargets), config.validate());
}

#[test]
fn validate_rejects_write_without_payloads() {
    let config = config_with(
        HttpMethod::Post,
        vec!["http://sink".to_string()],
        Vec::new(),
    );
    assert_eq!(Err(ConfigError::MissingPayloads), config.validate());
}

#[test]
fn validate_rejects_write_with_many_targets() {
    let config = config_with(
        HttpMethod::Put,
        vec!["http://a".to_string(), "http://b".to_string()],
        vec!["{}".to_string()],
    );
    assert_eq!(Err(ConfigError::MultipleTargetsForWrite), config.validate());
}

#[test]
fn validate_accepts_reads_and_proper_writes() {
    let read = config_with(
        HttpMethod::Get,
        vec!["http://a".to_string(), "http://b".to_string()],
        Vec::new(),
    );
    assert_eq!(Ok(()), read.validate());

    let write = config_with(
        HttpMethod::Post,
        vec!["http://sink".to_string()],
        vec!["{}".to_string()],
    );
    assert_eq!(Ok(()), write.validate());
}

#[test]
fn drawn_index_resolution_per_method() {
    assert_eq!(3, url_index_for(HttpMethod::Get, 3));
    assert_eq!(0, url_index_for(HttpMethod::Post, 3));
    assert_eq!(0, url_index_for(HttpMethod::Put, 3));
    assert_eq!(None, payload_index_for(HttpMethod::Get, 3));
    assert_eq!(Some(3), payload_index_for(HttpMethod::Post, 3));
    assert_eq!(Some(3), payload_index_for(HttpMethod::Put, 3));
}
