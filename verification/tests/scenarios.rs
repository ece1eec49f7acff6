//! End-to-end request scenarios against a simulated object store: an
//! in-memory list of key-value pairs in insertion order, answering with
//! HTTP-style status codes the way a bucket does.

use kvs3::auth::get_id;
use kvs3::json::Json;
use kvs3::listing::IndexQuery;
use kvs3::listing::make_entry;
use kvs3::listing::scan_prefix;
use kvs3::listing::select_keys;
use kvs3::store::resolve_get;
use kvs3::store::resolve_status;

struct SimStore {
    entries: Vec<(String, String)>,
}

impl SimStore {
    fn new() -> SimStore {
        SimStore { entries: Vec::new() }
    }

    fn put(&mut self, key: &str, value: &str) -> u16 {
        for e in self.entries.iter_mut() {
            if e.0 == key {
                e.1 = value.to_string();
                return 200;
            }
        }
        self.entries.push((key.to_string(), value.to_string()));
        200
    }

    fn get(&self, key: &str) -> Option<(u16, String)> {
        for e in &self.entries {
            if e.0 == key {
                return Some((200, e.1.clone()));
            }
        }
        Some((404, "{}".to_string()))
    }

    fn delete(&mut self, key: &str) -> Option<u16> {
        self.entries.retain(|e| e.0 != key);
        Some(204)
    }

    fn list(&self, prefix: &str) -> Vec<String> {
        self.entries
            .iter()
            .filter(|e| e.0.starts_with(prefix))
            .map(|e| e.0.clone())
            .collect()
    }
}

fn num(s: &str) -> Json {
    Json::Num(s.to_string())
}

fn obj(entries: Vec<(&str, Json)>) -> Json {
    Json::Obj(entries.into_iter().map(|(k, v)| (k.to_string(), v)).collect())
}

/// The value of a key as app code would parse it for this store's contents.
fn parse_widget(body: &str) -> Json {
    match body {
        "{\"x\":5}" => obj(vec![("x", num("5"))]),
        "{\"x\":5,\"y\":9}" => obj(vec![("x", num("5")), ("y", num("9"))]),
        "{}" => obj(vec![]),
        _ => panic!("unexpected body {}", body),
    }
}

#[test]
fn post_then_get_without_authorization_round_trips() {
    // no Authorization header: the empty-token namespace still works
    let mut store = SimStore::new();
    let key = get_id("", "widget1");

    let post_status = resolve_status(Some(store.put(&key, "{\"x\":5}")));
    assert_eq!(post_status, 200);

    let (get_status, body) = resolve_get(store.get(&key));
    assert_eq!(get_status, 200);
    assert_eq!(body, "{\"x\":5}");
}

#[test]
fn write_then_read_returns_the_value_byte_for_byte() {
    let mut store = SimStore::new();
    let key = get_id("Bearer tok", "widget1");
    let value = "{\"x\":5,\"y\":9}";
    store.put(&key, value);
    let (status, body) = resolve_get(store.get(&key));
    assert_eq!(status, 200);
    assert_eq!(body, value);
}

#[test]
fn delete_then_get_surfaces_the_stores_not_found() {
    let mut store = SimStore::new();
    let key = get_id("Bearer tok", "widget1");
    store.put(&key, "{\"x\":5}");

    let del_status = resolve_status(store.delete(&key));
    assert_eq!(del_status, 204);

    let (get_status, body) = resolve_get(store.get(&key));
    assert_eq!(get_status, 404);
    assert_eq!(body, "{}");
}

#[test]
fn listing_with_values_and_mask_projects_each_entry() {
    // GET /?values=true&mask=x on a namespace with one key
    let mut store = SimStore::new();
    let id_key = get_id("", "");
    let key = get_id("", "widget1");
    store.put(&key, "{\"x\":5,\"y\":9}");

    let query = IndexQuery {
        prefix: None,
        limit: None,
        skip: None,
        reverse: None,
        values: Some(true),
        mask: Some("x".to_string()),
    };

    let prefix = scan_prefix(&id_key, &query.prefix);
    let keys = store.list(&prefix);
    let selected = select_keys(
        keys,
        query.is_reverse(),
        query.effective_skip(),
        query.effective_limit(),
    );
    assert_eq!(selected.len(), 1);

    let mut entries: Vec<Json> = Vec::new();
    for k in &selected {
        let (_, body) = resolve_get(store.get(k));
        let value = parse_widget(&body);
        entries.push(make_entry(k, &id_key, value, &query.mask));
    }

    assert_eq!(
        entries,
        vec![obj(vec![("widget1", obj(vec![("x", num("5"))]))])]
    );
}

#[test]
fn tenants_do_not_see_each_other() {
    let mut store = SimStore::new();
    let key_a = get_id("Bearer alice", "widget1");
    let key_b = get_id("Bearer bob", "widget1");
    store.put(&key_a, "{\"x\":5}");
    store.put(&key_b, "{}");

    let id_key_a = get_id("Bearer alice", "");
    let listed = store.list(&scan_prefix(&id_key_a, &None));
    assert_eq!(listed, vec![key_a.clone()]);
}
