use g_server::runtime::config::{Compression, Config, Cors};
use g_server::runtime::layers::{layers, Layer};

type Plain = Config<fn() -> u8, fn(&str) -> u8>;

#[test]
fn an_empty_configuration_adds_no_layer() {
    let c: Plain = Config::empty();
    assert!(layers(&c).is_empty());
}

#[test]
fn layers_come_in_a_fixed_order() {
    let mut c: Plain = Config::empty();
    c.normalize_endpoint = Some(true);
    c.cors = Some(Cors {
        allowed_origins: None,
        allowed_methods: None,
        allowed_headers: None,
        exposed_headers: None,
        allow_credentials: Some(true),
        max_age: None,
    });
    c.timeout = Some(5000);
    c.concurrency_limit = Some(8);
    c.body_limit = Some(1024);
    c.compression = Some(Compression::Gzip);
    assert_eq!(
        layers(&c),
        vec![
            Layer::Compression(Compression::Gzip),
            Layer::BodyLimit(1024),
            Layer::ConcurrencyLimit { limit: 8, custom_error: false },
            Layer::Timeout { ms: 5000, custom_error: false },
            Layer::Cors,
            Layer::NormalizeEndpoint,
        ]
    );
}

fn busy() -> u8 {
    1
}

#[test]
fn custom_errors_only_matter_with_their_limit() {
    let mut c: Plain = Config::empty();
    c.timeout_error = Some(busy);
    c.concurrency_limit_error = Some(busy);
    c.normalize_endpoint = Some(false);
    assert!(layers(&c).is_empty());
    c.timeout = Some(10);
    c.concurrency_limit = Some(2);
    assert_eq!(
        layers(&c),
        vec![
            Layer::ConcurrencyLimit { limit: 2, custom_error: true },
            Layer::Timeout { ms: 10, custom_error: true },
        ]
    );
}

#[test]
fn compression_encodings() {
    assert_eq!(Compression::All.encodings(), (true, true, true, true));
    assert_eq!(Compression::Gzip.encodings(), (true, false, false, false));
    assert_eq!(Compression::Brotli.encodings(), (false, true, false, false));
    assert_eq!(Compression::Zstd.encodings(), (false, false, true, false));
    assert_eq!(Compression::Deflate.encodings(), (false, false, false, true));
    assert_eq!(Compression::default(), Compression::All);
}
