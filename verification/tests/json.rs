use rinha::json::{quote_all, to_json_array, write_array, write_object};
use rinha::pessoa::Pessoa;

fn pessoa(id: &str, apelido: &str, nome: &str, nascimento: &str, stack: Option<Vec<&str>>) -> Pessoa {
    Pessoa {
        id: id.to_string(),
        apelido: apelido.to_string(),
        nome: nome.to_string(),
        nascimento: nascimento.to_string(),
        stack: stack.map(|items| items.into_iter().map(|s| s.to_string()).collect()),
    }
}

#[test]
fn canonical_json_of_a_record() {
    let ana = pessoa("id-1", "ana", "Ana Silva", "1990-01-15", Some(vec!["rust", "go"]));
    assert_eq!(
        ana.to_json().unwrap(),
        "{\"id\":\"id-1\",\"apelido\":\"ana\",\"nome\":\"Ana Silva\",\"nascimento\":\"1990-01-15\",\"stack\":[\"rust\",\"go\"]}"
    );
}

#[test]
fn canonical_json_without_tags() {
    let ana = pessoa("id-1", "ana", "Ana", "1990-01-15", None);
    assert_eq!(
        ana.to_json().unwrap(),
        "{\"id\":\"id-1\",\"apelido\":\"ana\",\"nome\":\"Ana\",\"nascimento\":\"1990-01-15\",\"stack\":null}"
    );
    let ana = pessoa("id-1", "ana", "Ana", "1990-01-15", Some(vec![]));
    assert_eq!(
        ana.to_json().unwrap(),
        "{\"id\":\"id-1\",\"apelido\":\"ana\",\"nome\":\"Ana\",\"nascimento\":\"1990-01-15\",\"stack\":[]}"
    );
}

#[test]
fn canonical_json_escapes_text() {
    let odd = pessoa("id-1", "a\"b", "back\\slash\nline", "1990-01-15", Some(vec!["tab\there"]));
    assert_eq!(
        odd.to_json().unwrap(),
        "{\"id\":\"id-1\",\"apelido\":\"a\\\"b\",\"nome\":\"back\\\\slash\\nline\",\"nascimento\":\"1990-01-15\",\"stack\":[\"tab\\there\"]}"
    );
}

#[test]
fn canonical_json_reads_back_with_a_json_parser() {
    let odd = pessoa("id-1", "a\"b", "Zoë \u{1}", "1990-01-15", Some(vec!["x", "y"]));
    let value: serde_json::Value = serde_json::from_str(&odd.to_json().unwrap()).unwrap();
    assert_eq!(value["id"].as_str(), Some("id-1"));
    assert_eq!(value["apelido"].as_str(), Some("a\"b"));
    assert_eq!(value["nome"].as_str(), Some("Zoë \u{1}"));
    assert_eq!(value["nascimento"].as_str(), Some("1990-01-15"));
    assert_eq!(value["stack"][0].as_str(), Some("x"));
    assert_eq!(value["stack"][1].as_str(), Some("y"));
    assert_eq!(value["stack"].as_array().map(|a| a.len()), Some(2));
}

#[test]
fn quote_all_quotes_every_item() {
    let items = vec!["rust".to_string(), "a\"b".to_string()];
    assert_eq!(quote_all(&items), Some(vec!["\"rust\"".to_string(), "\"a\\\"b\"".to_string()]));
    assert_eq!(quote_all(&vec![]), Some(vec![]));
}

#[test]
fn array_frames_its_elements() {
    assert_eq!(write_array(&vec![]), "[]");
    assert_eq!(write_array(&vec!["1".to_string()]), "[1]");
    assert_eq!(write_array(&vec!["1".to_string(), "{}".to_string(), "\"x\"".to_string()]), "[1,{},\"x\"]");
}

#[test]
fn object_frames_its_members() {
    assert_eq!(
        write_object("1", "2", "3", "4", "5"),
        "{\"id\":1,\"apelido\":2,\"nome\":3,\"nascimento\":4,\"stack\":5}"
    );
}

#[test]
fn array_of_records() {
    let ana = pessoa("id-1", "ana", "Ana", "1990-01-15", Some(vec!["rust"]));
    let bob = pessoa("id-2", "bob", "Bob", "1980-02-02", None);
    assert_eq!(to_json_array(&vec![]).unwrap(), "[]");
    assert_eq!(
        to_json_array(&vec![ana, bob]).unwrap(),
        "[{\"id\":\"id-1\",\"apelido\":\"ana\",\"nome\":\"Ana\",\"nascimento\":\"1990-01-15\",\"stack\":[\"rust\"]},{\"id\":\"id-2\",\"apelido\":\"bob\",\"nome\":\"Bob\",\"nascimento\":\"1980-02-02\",\"stack\":null}]"
    );
}
