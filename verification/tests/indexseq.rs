use httpbench::config::{
    payload_index_for, url_index_for, Config, DelayDistribution, HttpMethod, RequestOrder,
};
use httpbench::requestgen::indexseq::{RandomIndex, SequentialIndex};
use httpbench::requestgen::RequestGenerator;

fn base_config(requests: usize, order: RequestOrder, urls: Vec<String>) -> Config {
    Config {
        concurrency: 1,
        requests,
        order,
        delay_ms: 0,
        delay_distrib: DelayDistribution::Constant,
        http_method: HttpMethod::Get,
        urls,
        payloads: Vec::new(),
    }
}

// Verifies that the random index generator creates correctly bounded values
#[test]
fn random_index() {
    let mut index_generator = RandomIndex::new(10, 5);
    let mut actual = Vec::new();
    while let Some(i) = index_generator.next_index() {
        actual.push(i);
    }
    assert_eq!(5, actual.len());
    for v in actual {
        assert!(v < 10);
    }
}

// Verifies that the sequential generator creates indexes in order
#[test]
fn sequential_index() {
    let mut index_generator = SequentialIndex::new(2, 5);
    let mut actual = Vec::new();
    while let Some(i) = index_generator.next_index() {
        actual.push(i);
    }
    let expected: Vec<usize> = vec![0, 1, 0, 1, 0];
    assert_eq!(expected, actual);
}

// Verify the generator emits requests with a simple end-to-end configuration
#[test]
fn request_generator() {
    let urls = vec![
        "http://one".to_string(),
        "http://two".to_string(),
        "http://three".to_string(),
    ];
    let config = Config {
        concurrency: 1,
        requests: 3,
        order: RequestOrder::Sequential,
        delay_ms: 1,
        delay_distrib: DelayDistribution::Constant,
        http_method: HttpMethod::Get,
        urls,
        payloads: Vec::new(),
    };

    let urls_count = config.urls.len();
    let mut generator = RequestGenerator::new(&config, urls_count);
    assert_eq!(0, generator.next().unwrap().url_index);
    assert_eq!(1, generator.next().unwrap().url_index);
    assert_eq!(2, generator.next().unwrap().url_index);
    assert!(generator.next().is_none());
}

// Exactly `requests` draws succeed, and every later draw reports exhaustion.
#[test]
fn generator_exhaustion_exact() {
    let urls = vec!["http://one".to_string(), "http://two".to_string()];
    let config = base_config(7, RequestOrder::Random, urls);
    let mut generator = RequestGenerator::new(&config, 2);
    let mut successes: u32 = 0;
    while let Some(request) = generator.next() {
        assert!(request.url_index < 2);
        successes += 1;
    }
    assert_eq!(7, successes);
    for _ in 0..5 {
        assert!(generator.next().is_none());
    }
}

// Three targets, three requests, sequential order, no delay: the visited
// indices are exactly 0, 1, 2 in order, each with a zero delay.
#[test]
fn sequential_scenario_three_targets() {
    let urls = vec![
        "http://a".to_string(),
        "http://b".to_string(),
        "http://c".to_string(),
    ];
    let config = base_config(3, RequestOrder::Sequential, urls);
    let mut generator = RequestGenerator::new(&config, 3);
    let mut visited = Vec::new();
    while let Some(request) = generator.next() {
        assert_eq!(0, request.sleep_us);
        visited.push(request.url_index);
    }
    assert_eq!(vec![0, 1, 2], visited);
}

// POST with two payloads and a single URL: both payloads are selected
// exactly once each, in index order, and every request hits URL zero.
#[test]
fn post_payloads_in_order() {
    let config = Config {
        concurrency: 1,
        requests: 2,
        order: RequestOrder::Sequential,
        delay_ms: 0,
        delay_distrib: DelayDistribution::Constant,
        http_method: HttpMethod::Post,
        urls: vec!["http://sink".to_string()],
        payloads: vec!["{\"n\":1}".to_string(), "{\"n\":2}".to_string()],
    };
    assert!(config.validate().is_ok());

    let payload_count = config.payloads.len();
    let mut generator = RequestGenerator::new(&config, payload_count);
    let mut sent = Vec::new();
    while let Some(request) = generator.next() {
        assert_eq!(0, url_index_for(config.http_method, request.url_index));
        let payload_index = payload_index_for(config.http_method, request.url_index).unwrap();
        sent.push(config.payloads[payload_index].clone());
    }
    assert_eq!(vec!["{\"n\":1}".to_string(), "{\"n\":2}".to_string()], sent);
}
