use httpbench::config::{Config, DelayDistribution, HttpMethod, RequestOrder};
use httpbench::urlsource::{url_source, RandomIter, SequentialIter};

#[test]
fn mod_random_iter() {
    let mut iter = RandomIter::new(10, 5);
    let mut actual: Vec<usize> = Vec::new();
    while let Some(v) = iter.next_pos() {
        actual.push(v);
    }
    assert_eq!(5, actual.len());
    for v in actual {
        assert!(v < 10);
    }
}

#[test]
fn mod_sequential_iter() {
    let mut iter = SequentialIter::new(2, 5);
    let mut actual: Vec<usize> = Vec::new();
    while let Some(v) = iter.next_pos() {
        actual.push(v);
    }
    let expected: Vec<usize> = vec![0, 1, 0, 1, 0];
    assert_eq!(expected, actual);
}

#[test]
fn tests_random_iter() {
    let mut iter = RandomIter::new(10, 5);
    let mut actual: Vec<usize> = Vec::new();
    while let Some(v) = iter.next_pos() {
        actual.push(v);
    }
    assert_eq!(5, actual.len());
    for v in actual {
        assert!(v < 10);
    }
}

#[test]
fn tests_sequential_iter() {
    let mut iter = SequentialIter::new(2, 5);
    let mut actual: Vec<usize> = Vec::new();
    while let Some(v) = iter.next_pos() {
        actual.push(v);
    }
    let expected: Vec<usize> = vec![0, 1, 0, 1, 0];
    assert_eq!(expected, actual);
}

// The URL source hands out the configured URLs themselves, wrapping in
// round-robin order until the request budget runs out.
#[test]
fn url_source_sequential_wraps() {
    let config = Config {
        concurrency: 1,
        requests: 4,
        order: RequestOrder::Sequential,
        delay_ms: 0,
        delay_distrib: DelayDistribution::Constant,
        http_method: HttpMethod::Get,
        urls: vec!["http://one".to_string(), "http://two".to_string()],
        payloads: Vec::new(),
    };
    let mut source = url_source(&config);
    let mut seen: Vec<String> = Vec::new();
    while let Some(url) = source.next() {
        seen.push(url.to_string());
    }
    assert_eq!(
        vec![
            "http://one".to_string(),
            "http://two".to_string(),
            "http://one".to_string(),
            "http://two".to_string(),
        ],
        seen
    );
}
