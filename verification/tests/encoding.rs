use std::collections::hash_map::DefaultHasher;
use std::hash::Hasher;
use url_shortener::actor::Actor;
use url_shortener::config::{Config, Mode};
use url_shortener::error::EngineError;

const ALPHABET: &str = "0123456789ABCDEFGHIJKLMNOPQRSTUVWXYZabcdefghijklmnopqrstuvwxyz-_";

fn hash_config(uri_len: Option<usize>) -> Config {
    Config {
        mode: Mode::Hash,
        database_url: Some(String::from("shortener.db")),
        salt: None,
        uri_len,
        buffer_len: None,
    }
}

fn obfuscation_config(salt: Option<&str>) -> Config {
    Config {
        mode: Mode::Obfuscation,
        database_url: Some(String::from("shortener.db")),
        salt: salt.map(String::from),
        uri_len: None,
        buffer_len: None,
    }
}

#[test]
fn test_hash_encode() {
    let s = String::from("Hello World");
    let actor = Actor::new(hash_config(None)).ok().unwrap();
    let r = actor.encode(&s);
    assert_eq!(r.len(), 12);
    assert_eq!(r, actor.encode(&s));
}

#[test]
fn hash_token_of_hello_world() {
    let actor = Actor::new(hash_config(None)).ok().unwrap();
    assert_eq!(actor.encode(&String::from("Hello World")), "kmaNhpekQ49E");
}

#[test]
fn hash_token_follows_the_running_digest() {
    let seed = "https://example.com/a/long/path?with=query";
    let mut hasher = DefaultHasher::new();
    let mut expected = String::new();
    for _ in 0..9 {
        hasher.write(seed.as_bytes());
        let value = (hasher.finish() % 64) as usize;
        expected.push_str(&ALPHABET[value..value + 1]);
    }
    let actor = Actor::new(hash_config(Some(9))).ok().unwrap();
    assert_eq!(actor.encode(&String::from(seed)), expected);
}

#[test]
fn hash_token_has_the_configured_length() {
    for length in [6usize, 7, 12, 40] {
        let actor = Actor::new(hash_config(Some(length))).ok().unwrap();
        let token = actor.encode(&String::from("https://example.com"));
        assert_eq!(token.chars().count(), length);
        assert!(token.chars().all(|c| ALPHABET.contains(c)));
    }
}

#[test]
fn hash_token_of_the_empty_seed() {
    let actor = Actor::new(hash_config(Some(6))).ok().unwrap();
    let token = actor.encode(&String::new());
    assert_eq!(token.len(), 6);
    assert_eq!(token, actor.encode(&String::new()));
}

#[test]
fn hash_tokens_differ_with_the_input() {
    let actor = Actor::new(hash_config(None)).ok().unwrap();
    assert_ne!(
        actor.encode(&String::from("https://example.com/a")),
        actor.encode(&String::from("https://example.com/b"))
    );
}

#[test]
fn hash_length_five_is_a_configuration_error() {
    let made = Actor::new(hash_config(Some(5)));
    assert!(matches!(made, Err(EngineError::ConfigurationError)));
}

#[test]
fn hash_length_six_is_accepted() {
    assert!(Actor::new(hash_config(Some(6))).is_ok());
}

#[test]
fn hash_length_zero_is_a_configuration_error() {
    let made = Actor::new(hash_config(Some(0)));
    assert!(matches!(made, Err(EngineError::ConfigurationError)));
}

#[test]
fn missing_database_url_is_a_configuration_error() {
    let mut config = hash_config(None);
    config.database_url = None;
    assert!(matches!(Actor::new(config), Err(EngineError::ConfigurationError)));
}

#[test]
fn missing_salt_is_a_configuration_error() {
    let made = Actor::new(obfuscation_config(None));
    assert!(matches!(made, Err(EngineError::ConfigurationError)));
}

#[test]
fn obfuscation_ignores_the_hash_length() {
    let mut config = obfuscation_config(Some("salt"));
    config.uri_len = Some(1);
    assert!(Actor::new(config).is_ok());
}

#[test]
fn hash_mode_needs_no_salt() {
    assert!(Actor::new(hash_config(None)).is_ok());
}

#[test]
fn byte2b64_writes_the_whole_alphabet() {
    let values: Vec<u8> = (0u8..64).collect();
    assert_eq!(Actor::byte2b64(&values), ALPHABET);
}

#[test]
fn byte2b64_at_the_borders_of_each_range() {
    assert_eq!(Actor::byte2b64(&[0, 9, 10, 35, 36, 61, 62, 63]), "09AZaz-_");
}

#[test]
fn byte2b64_of_nothing_is_empty() {
    assert_eq!(Actor::byte2b64(&[]), "");
}

#[test]
fn byte2b64_keeps_order_and_repeats() {
    assert_eq!(Actor::byte2b64(&[17, 14, 21, 21, 24]), "HELLO");
}

#[test]
fn obfuscation_gives_the_hashid_of_the_bytes() {
    let actor = Actor::new(obfuscation_config(Some("this is my salt"))).ok().unwrap();
    assert_eq!(actor.encode(&String::from("\u{1}\u{2}\u{3}")), "laHquq");
}

#[test]
fn obfuscation_depends_on_the_salt() {
    let one = Actor::new(obfuscation_config(Some("this is my salt"))).ok().unwrap();
    let other = Actor::new(obfuscation_config(Some("another salt"))).ok().unwrap();
    let uri = String::from("https://example.com");
    assert_eq!(one.encode(&uri), one.encode(&uri));
    assert_ne!(one.encode(&uri), other.encode(&uri));
}

#[test]
fn obfuscation_is_shorter_for_shorter_input() {
    let actor = Actor::new(obfuscation_config(Some("this is my salt"))).ok().unwrap();
    let short = actor.encode(&String::from("ab"));
    let long = actor.encode(&String::from("https://example.com/a/much/longer/address"));
    assert!(short.len() < long.len());
    assert!(long.chars().all(|c| c.is_ascii_alphanumeric()));
}

#[test]
fn obfuscation_of_the_empty_input_is_empty() {
    let actor = Actor::new(obfuscation_config(Some("this is my salt"))).ok().unwrap();
    assert_eq!(actor.encode(&String::new()), "");
}

#[test]
fn a_value_without_a_symbol_is_an_encoding_fault() {
    assert_eq!(Actor::try_byte2b64(&[0, 63]), Ok(String::from("0_")));
    assert_eq!(Actor::try_byte2b64(&[0, 64]), Err(EngineError::EncodingInvariantViolation));
    assert_eq!(Actor::try_byte2b64(&[255]), Err(EngineError::EncodingInvariantViolation));
    assert_eq!(Actor::try_byte2b64(&[]), Ok(String::new()));
}

#[test]
fn both_strategies_accept_an_ordinary_uri() {
    let hashing = Actor::new(hash_config(None)).ok().unwrap();
    let obfuscating = Actor::new(obfuscation_config(Some("salt"))).ok().unwrap();
    assert!(hashing.accepts("https://example.com"));
    assert!(obfuscating.accepts("https://example.com"));
    assert!(obfuscating.accepts(""));
}
