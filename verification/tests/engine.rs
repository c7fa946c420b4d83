use url_shortener::actor::{Actor, InsertPlan, LookupReply, ReadPlan, WriteReply};
use url_shortener::config::{Config, Mode};
use url_shortener::error::EngineError;
use url_shortener::store::Store;

fn s(text: &str) -> String {
    String::from(text)
}

fn engine(capacity: usize) -> Actor {
    Actor::new(Config {
        mode: Mode::Hash,
        database_url: Some(s("shortener.db")),
        salt: None,
        uri_len: None,
        buffer_len: Some(capacity),
    })
    .ok()
    .unwrap()
}

fn obfuscating_engine(capacity: usize) -> Actor {
    Actor::new(Config {
        mode: Mode::Obfuscation,
        database_url: Some(s("shortener.db")),
        salt: Some(s("this is my salt")),
        uri_len: None,
        buffer_len: Some(capacity),
    })
    .ok()
    .unwrap()
}

fn is_cached(actor: &Actor, token: &str) -> bool {
    matches!(actor.plan_read(token), ReadPlan::Answer(_))
}

#[test]
fn read_returns_what_insert_stored() {
    let mut actor = engine(10);
    let mut store = Store::new();
    for uri in ["https://example.com", "https://example.com/a/b?c=d", "x", "päth/ünïcode"] {
        let token = actor.insert(&mut store, s(uri)).unwrap();
        assert_eq!(token, actor.encode(&s(uri)));
        assert_eq!(actor.read(&store, &token), Ok(s(uri)));
    }
}

#[test]
fn read_returns_what_insert_stored_when_obfuscating() {
    let mut actor = obfuscating_engine(10);
    let mut store = Store::new();
    let token = actor.insert(&mut store, s("https://example.com/a")).unwrap();
    assert_eq!(token, actor.encode(&s("https://example.com/a")));
    assert_eq!(actor.read(&store, &token), Ok(s("https://example.com/a")));
}

#[test]
fn read_falls_back_to_the_table_without_a_cache() {
    let mut actor = engine(0);
    let mut store = Store::new();
    let token = actor.insert(&mut store, s("https://example.com")).unwrap();
    assert!(!is_cached(&actor, &token));
    assert_eq!(actor.read(&store, &token), Ok(s("https://example.com")));
    assert!(actor.cached_tokens().is_empty());
}

#[test]
fn a_second_insert_returns_the_cached_uri_and_stores_nothing() {
    let mut actor = engine(10);
    let mut store = Store::new();
    let token = actor.insert(&mut store, s("https://example.com")).unwrap();
    assert_eq!(store.len(), 1);
    let again = actor.insert(&mut store, s("https://example.com"));
    assert_eq!(again, Ok(s("https://example.com")));
    assert_eq!(store.len(), 1);
    assert_eq!(actor.cached_tokens(), vec![token.clone()]);
    assert_eq!(store.get(&token).unwrap().original_uri(), "https://example.com");
}

#[test]
fn insert_twice_without_a_cache_returns_the_token_twice() {
    let mut actor = engine(0);
    let mut store = Store::new();
    let first = actor.insert(&mut store, s("https://example.com")).unwrap();
    let second = actor.insert(&mut store, s("https://example.com")).unwrap();
    assert_eq!(first, second);
    assert_eq!(store.len(), 1);
    assert_eq!(store.get(&first).unwrap().original_uri(), "https://example.com");
}

#[test]
fn insert_of_an_empty_uri_is_malformed() {
    let mut actor = engine(10);
    let mut store = Store::new();
    assert_eq!(actor.insert(&mut store, String::new()), Err(EngineError::MalformedInput));
    assert_eq!(store.len(), 0);
    assert!(actor.cached_tokens().is_empty());
}

#[test]
fn insert_under_a_stored_token_keeps_the_stored_uri() {
    let mut actor = engine(0);
    let mut store = Store::new();
    assert_eq!(actor.insert_under(&mut store, s("tok"), s("first")), Ok(s("tok")));
    assert_eq!(actor.insert_under(&mut store, s("tok"), s("second")), Ok(s("tok")));
    assert_eq!(store.len(), 1);
    assert_eq!(actor.read(&store, "tok"), Ok(s("first")));
}

#[test]
fn insert_under_a_cached_token_returns_the_cached_uri() {
    let mut actor = engine(5);
    let mut store = Store::new();
    assert_eq!(actor.insert_under(&mut store, s("tok"), s("first")), Ok(s("tok")));
    assert_eq!(actor.insert_under(&mut store, s("tok"), s("second")), Ok(s("first")));
    assert_eq!(store.len(), 1);
}

#[test]
fn read_of_a_token_with_a_separator_is_malformed() {
    let mut actor = engine(10);
    let store = Store::new();
    assert_eq!(actor.read(&store, "a/b"), Err(EngineError::MalformedInput));
    assert!(matches!(actor.plan_read("a/b"), ReadPlan::Refuse));
    assert!(matches!(actor.plan_read("/"), ReadPlan::Refuse));
    assert!(matches!(actor.plan_read("ab"), ReadPlan::Lookup));
}

#[test]
fn a_malformed_token_is_refused_even_when_it_is_stored() {
    let mut actor = engine(10);
    let mut store = Store::new();
    store.insert(s("a/b"), s("https://example.com"));
    assert_eq!(actor.read(&store, "a/b"), Err(EngineError::MalformedInput));
    assert!(actor.cached_tokens().is_empty());
}

#[test]
fn read_of_an_unknown_token_is_not_found() {
    let mut actor = engine(10);
    let store = Store::new();
    assert_eq!(actor.read(&store, "nothing"), Err(EngineError::RecordNotFound));
    assert!(actor.cached_tokens().is_empty());
}

#[test]
fn read_caches_what_the_table_holds() {
    let mut actor = engine(10);
    let mut store = Store::new();
    store.insert(s("tok"), s("https://example.com"));
    assert!(!is_cached(&actor, "tok"));
    assert_eq!(actor.read(&store, "tok"), Ok(s("https://example.com")));
    assert!(is_cached(&actor, "tok"));
}

#[test]
fn delete_then_read_is_not_found_and_delete_again_succeeds() {
    let mut actor = engine(10);
    let mut store = Store::new();
    let token = actor.insert(&mut store, s("https://example.com")).unwrap();
    assert_eq!(actor.delete(&mut store, token.clone()), Ok(true));
    assert_eq!(actor.read(&store, &token), Err(EngineError::RecordNotFound));
    assert_eq!(actor.delete(&mut store, token.clone()), Ok(true));
    assert_eq!(store.len(), 0);
    assert!(actor.cached_tokens().is_empty());
}

#[test]
fn delete_of_an_unknown_token_succeeds() {
    let mut actor = engine(10);
    let mut store = Store::new();
    assert_eq!(actor.delete(&mut store, s("nothing")), Ok(true));
}

#[test]
fn insert_three_into_a_cache_of_two() {
    let mut actor = engine(2);
    let mut store = Store::new();
    let a = actor.insert(&mut store, s("A")).unwrap();
    let b = actor.insert(&mut store, s("B")).unwrap();
    let c = actor.insert(&mut store, s("C")).unwrap();
    assert_eq!(actor.cached_tokens(), vec![b.clone(), c.clone()]);
    assert!(!is_cached(&actor, &a));
    assert!(is_cached(&actor, &b));
    assert!(is_cached(&actor, &c));
    assert_eq!(store.len(), 3);
    assert!(store.get(&a).is_some());
    assert!(store.get(&b).is_some());
    assert!(store.get(&c).is_some());
    assert_eq!(actor.read(&store, &a), Ok(s("A")));
    assert_eq!(actor.cached_tokens(), vec![c.clone(), a.clone()]);
    assert!(!is_cached(&actor, &b));
}

#[test]
fn every_cached_token_is_stored() {
    let mut actor = engine(3);
    let mut store = Store::new();
    let mut tokens = Vec::new();
    for i in 0..12 {
        let token = actor.insert(&mut store, format!("https://example.com/{}", i)).unwrap();
        tokens.push(token);
        if i % 3 == 0 {
            assert_eq!(actor.delete(&mut store, tokens[i / 2].clone()), Ok(true));
        }
        if i % 4 == 1 {
            let _ = actor.read(&store, &tokens[i / 3]);
        }
        let cached = actor.cached_tokens();
        assert!(cached.len() <= 3);
        for token in cached {
            assert!(store.get(&token).is_some());
        }
    }
}

#[test]
fn cache_puts_under_the_given_key() {
    let mut actor = engine(2);
    actor.cache(s("k1"), s("v1"));
    actor.cache(s("k2"), s("v2"));
    actor.cache(s("k3"), s("v3"));
    assert_eq!(actor.cached_tokens(), vec![s("k2"), s("k3")]);
    assert!(matches!(actor.plan_read("k3"), ReadPlan::Answer(v) if v == "v3"));
}

#[test]
fn plan_insert_asks_for_a_write_then_answers_from_the_cache() {
    let mut actor = engine(10);
    let uri = s("https://example.com");
    let token = actor.encode(&uri);
    assert!(matches!(actor.plan_insert(&uri), InsertPlan::Write { token: t } if t == token));
    assert_eq!(
        actor.finish_insert(token.clone(), uri.clone(), WriteReply::Done),
        Ok(token.clone())
    );
    assert!(matches!(actor.plan_insert(&uri), InsertPlan::Answer(u) if u == uri));
    assert!(matches!(actor.plan_insert(&String::new()), InsertPlan::Refuse));
    assert!(matches!(actor.plan_insert_under(s("t"), &String::new()), InsertPlan::Refuse));
    assert!(matches!(
        actor.plan_insert_under(s("t"), &uri),
        InsertPlan::Write { token: t } if t == "t"
    ));
}

#[test]
fn a_fault_of_the_table_is_a_storage_fault() {
    let mut actor = engine(10);
    assert_eq!(
        actor.finish_insert(s("tok"), s("https://example.com"), WriteReply::Fault),
        Err(EngineError::StorageFault)
    );
    assert!(actor.cached_tokens().is_empty());
    assert_eq!(actor.finish_read("tok", LookupReply::Fault), Err(EngineError::StorageFault));
    assert!(actor.cached_tokens().is_empty());
    actor.cache(s("tok"), s("https://example.com"));
    assert_eq!(actor.finish_delete("tok", WriteReply::Fault), Err(EngineError::StorageFault));
    assert_eq!(actor.cached_tokens(), vec![s("tok")]);
}

#[test]
fn finish_read_caches_a_found_record_only() {
    let mut actor = engine(10);
    assert_eq!(actor.finish_read("tok", LookupReply::Absent), Err(EngineError::RecordNotFound));
    assert!(actor.cached_tokens().is_empty());
    assert_eq!(
        actor.finish_read("tok", LookupReply::Found(s("https://example.com"))),
        Ok(s("https://example.com"))
    );
    assert_eq!(actor.cached_tokens(), vec![s("tok")]);
}

#[test]
fn finish_delete_forgets_the_token() {
    let mut actor = engine(10);
    actor.cache(s("tok"), s("https://example.com"));
    assert_eq!(actor.finish_delete("tok", WriteReply::Done), Ok(true));
    assert!(actor.cached_tokens().is_empty());
}

#[test]
fn a_new_engine_has_an_empty_cache() {
    let actor = engine(5);
    assert!(actor.cached_tokens().is_empty());
    assert!(matches!(actor.plan_read("anything"), ReadPlan::Lookup));
}

#[test]
fn the_cache_holds_a_thousand_entries_by_default() {
    let mut actor = Actor::new(Config {
        mode: Mode::Hash,
        database_url: Some(s("shortener.db")),
        salt: None,
        uri_len: None,
        buffer_len: None,
    })
    .ok()
    .unwrap();
    for i in 0..1001 {
        actor.cache(format!("t{}", i), format!("u{}", i));
    }
    let cached = actor.cached_tokens();
    assert_eq!(cached.len(), 1000);
    assert_eq!(cached[0], "t1");
    assert_eq!(cached[999], "t1000");
}

#[test]
fn a_collision_keeps_the_stored_uri_and_caches_the_new_one() {
    let mut actor = engine(5);
    let mut store = Store::new();
    store.insert(s("tok"), s("stored"));
    assert_eq!(actor.insert_under(&mut store, s("tok"), s("newer")), Ok(s("tok")));
    assert_eq!(store.get("tok").unwrap().original_uri(), "stored");
    assert_eq!(actor.read(&store, "tok"), Ok(s("newer")));
}
