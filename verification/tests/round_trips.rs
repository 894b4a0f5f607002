use std::collections::HashMap;

use google_admin::orgunits::Orgunits;
use google_admin::request::{Method, Request};
use google_admin::response::{Failure, Reply};
use google_admin::types::DirectoryOrgunitsListType;

/// A service in memory: it keeps the body that was last put under an address.
struct Shelf {
    units: HashMap<String, Vec<u8>>,
}

impl Shelf {
    fn new() -> Shelf {
        Shelf { units: HashMap::new() }
    }

    fn perform(&mut self, request: Request) -> Reply {
        match request.method {
            Method::Get => match self.units.get(&request.url) {
                Some(body) => Reply::Answered { status: 200, body: body.clone() },
                None => Reply::Answered { status: 404, body: b"not found".to_vec() },
            },
            Method::Put | Method::Patch => match request.body {
                Some(body) if self.units.contains_key(&request.url) => {
                    self.units.insert(request.url, body.clone());
                    Reply::Answered { status: 200, body }
                }
                Some(_) => Reply::Answered { status: 404, body: b"not found".to_vec() },
                None => Reply::Answered { status: 400, body: b"no body".to_vec() },
            },
            Method::Post => match request.body {
                Some(body) if body.is_empty() => {
                    Reply::Answered { status: 400, body: b"Invalid Input: name".to_vec() }
                }
                Some(body) => {
                    let address = format!("{}/{}", request.url, self.units.len());
                    self.units.insert(address, body.clone());
                    Reply::Answered { status: 201, body }
                }
                None => Reply::Answered { status: 400, body: b"no body".to_vec() },
            },
            Method::Delete => match self.units.remove(&request.url) {
                Some(_) => Reply::Answered { status: 204, body: Vec::new() },
                None => Reply::Answered { status: 404, body: b"not found".to_vec() },
            },
        }
    }
}

#[test]
fn get_replace_get_yields_the_same_value() {
    let api = Orgunits::new(());
    let mut shelf = Shelf::new();
    let pairs = [
        ("my_customer", "corp"),
        ("my_customer", "corp/sales team"),
        ("C03az79cb", "id:03ph8a2z1enx4lx"),
        ("a/b", "c?d#e f"),
        ("é", "日本/東京"),
    ];
    for (n, (customer, unit)) in pairs.iter().enumerate() {
        let address = api.directory_get(customer, unit).url;
        shelf.units.insert(address, format!("{{\"name\":\"unit {}\"}}", n).into_bytes());
    }
    for (customer, unit) in pairs.iter() {
        let first = shelf.perform(api.directory_get(customer, unit)).payload().unwrap();
        let replaced = shelf
            .perform(api.directory_update(customer, unit, first.clone()))
            .payload()
            .unwrap();
        let second = shelf.perform(api.directory_get(customer, unit)).payload().unwrap();
        assert_eq!(replaced, first);
        assert_eq!(second, first);
    }
    assert_eq!(shelf.units.len(), pairs.len());
}

#[test]
fn replace_reaches_only_the_unit_that_was_named() {
    let api = Orgunits::new(());
    let mut shelf = Shelf::new();
    shelf.units.insert(api.directory_get("a", "b/orgunits/c").url, b"outer".to_vec());
    shelf.units.insert(api.directory_get("a/orgunits/b", "c").url, b"inner".to_vec());
    let reply = shelf.perform(api.directory_update("a", "b/orgunits/c", b"changed".to_vec()));
    assert_eq!(reply.payload(), Ok(b"changed".to_vec()));
    let outer = shelf.perform(api.directory_get("a", "b/orgunits/c")).payload();
    let inner = shelf.perform(api.directory_get("a/orgunits/b", "c")).payload();
    assert_eq!(outer, Ok(b"changed".to_vec()));
    assert_eq!(inner, Ok(b"inner".to_vec()));
}

#[test]
fn delete_then_delete_again() {
    let api = Orgunits::new(());
    let mut shelf = Shelf::new();
    shelf.units.insert(api.directory_get("my_customer", "corp").url, b"{}".to_vec());
    let first = shelf.perform(api.directory_delete("my_customer", "corp")).acknowledgement();
    assert_eq!(first, Ok(()));
    let second = shelf.perform(api.directory_delete("my_customer", "corp")).acknowledgement();
    assert_eq!(second, Err(Failure::Status { code: 404, body: b"not found".to_vec() }));
    let gone = shelf.perform(api.directory_get("my_customer", "corp")).payload();
    assert_eq!(gone, Err(Failure::Status { code: 404, body: b"not found".to_vec() }));
}

#[test]
fn rejected_insert_fails_with_the_answer_of_the_service() {
    let api = Orgunits::new(());
    let mut shelf = Shelf::new();
    let request = api.directory_insert("my_customer", Vec::new());
    assert_eq!(request.method, Method::Post);
    assert_eq!(request.body, Some(Vec::new()));
    let outcome = shelf.perform(request).payload();
    assert_eq!(
        outcome,
        Err(Failure::Status { code: 400, body: b"Invalid Input: name".to_vec() })
    );
    assert!(shelf.units.is_empty());
}

#[test]
fn accepted_insert_yields_what_the_service_confirms() {
    let api = Orgunits::new(());
    let mut shelf = Shelf::new();
    let body = b"{\"name\":\"sales\",\"parentOrgUnitPath\":\"/\"}".to_vec();
    let outcome = shelf.perform(api.directory_insert("my_customer", body.clone())).payload();
    assert_eq!(outcome, Ok(body));
    assert_eq!(shelf.units.len(), 1);
}

#[test]
fn patch_of_a_missing_unit_fails_with_its_status() {
    let api = Orgunits::new(());
    let mut shelf = Shelf::new();
    let outcome = shelf.perform(api.directory_patch("my_customer", "nowhere", b"{}".to_vec()));
    assert_eq!(
        outcome.payload(),
        Err(Failure::Status { code: 404, body: b"not found".to_vec() })
    );
}

#[test]
fn listing_is_a_get_without_body() {
    let api = Orgunits::new(());
    for scope in [DirectoryOrgunitsListType::AllChildren, DirectoryOrgunitsListType::Children] {
        for unit in ["", "corp", "corp/sales"] {
            let request = api.directory_list("my_customer", unit, scope);
            assert_eq!(request.method, Method::Get);
            assert_eq!(request.body, None);
            assert_eq!(request.url.contains("orgUnitPath="), !unit.is_empty());
            assert!(request.url.contains(&format!("?type={}", scope.as_str())));
        }
    }
}
