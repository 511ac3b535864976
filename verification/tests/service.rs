use rinha::pessoa::{CreatePessoaRequest, PessoaRow};
use rinha::service::{
    CountPessoaReply, MyRinha, PessoaByIdRequest, PessoaReply, PessoaSearchReply,
    PessoaSearchRequest, Status, StoreError, SEARCH_TTL_SECS,
};

fn request(apelido: &str, nome: &str, nascimento: &str, stack: Vec<&str>) -> CreatePessoaRequest {
    CreatePessoaRequest {
        apelido: apelido.to_string(),
        nome: nome.to_string(),
        nascimento: nascimento.to_string(),
        stack: stack.into_iter().map(|s| s.to_string()).collect(),
    }
}

fn by_id(id: &str) -> PessoaByIdRequest {
    PessoaByIdRequest { id: id.to_string() }
}

fn search(term: &str) -> PessoaSearchRequest {
    PessoaSearchRequest { term: term.to_string() }
}

fn row(id: &str, apelido: &str, nome: &str, nascimento: &str, stack: Option<&str>) -> PessoaRow {
    PessoaRow {
        id: id.to_string(),
        nome: nome.to_string(),
        apelido: apelido.to_string(),
        nascimento: nascimento.to_string(),
        stack: stack.map(|s| s.to_string()),
    }
}

const ANA_JSON: &str = "{\"id\":\"id-1\",\"apelido\":\"ana\",\"nome\":\"Ana Silva\",\"nascimento\":\"1990-01-15\",\"stack\":[\"rust\",\"go\"]}";

#[test]
fn new_service_is_empty() {
    let mut rinha = MyRinha::new();
    assert_eq!(rinha.pending(), 0);
    assert_eq!(rinha.count_success_create_pessoa(), CountPessoaReply { amount: 0 });
    assert_eq!(rinha.pessoa_by_id(&by_id("id-1")), None);
    assert_eq!(rinha.pessoa_search(&search("ana"), 0), None);
    assert_eq!(rinha.recv(), None);
}

#[test]
fn accepted_creation_is_cached_queued_and_counted() {
    let mut rinha = MyRinha::new();
    let reply = rinha.create_pessoa_with_id(
        request("ana", "Ana Silva", "1990-01-15", vec!["rust", "go"]),
        "id-1".to_string(),
    );
    assert_eq!(reply.status, 201);
    assert_eq!(reply.id, Some("id-1".to_string()));
    assert_eq!(
        rinha.pessoa_by_id(&by_id("id-1")),
        Some(PessoaReply { json: Some(ANA_JSON.to_string()) })
    );
    assert_eq!(rinha.pending(), 1);
    assert_eq!(rinha.count_success_create_pessoa().amount, 1);
}

#[test]
fn malformed_creation_changes_nothing() {
    let mut rinha = MyRinha::new();
    let reply = rinha.create_pessoa_with_id(request("b", "B", "1990-13-40", vec![]), "id-1".to_string());
    assert_eq!(reply.status, 400);
    assert_eq!(reply.id, None);
    assert_eq!(rinha.pending(), 0);
    assert_eq!(rinha.count_success_create_pessoa().amount, 0);
    assert_eq!(rinha.pessoa_by_id(&by_id("id-1")), None);
    // The handle was not claimed: a well-formed request with it is accepted.
    let reply = rinha.create_pessoa_with_id(request("b", "B", "1990-12-31", vec![]), "id-2".to_string());
    assert_eq!(reply.status, 201);
}

#[test]
fn taken_handle_is_a_conflict() {
    let mut rinha = MyRinha::new();
    let first = rinha.create_pessoa_with_id(request("ana", "Ana Silva", "1990-01-15", vec![]), "id-1".to_string());
    assert_eq!(first.status, 201);
    let second = rinha.create_pessoa_with_id(request("ana", "Another", "1980-02-02", vec![]), "id-2".to_string());
    assert_eq!(second.status, 422);
    assert_eq!(second.id, None);
    assert_eq!(rinha.pessoa_by_id(&by_id("id-2")), None);
    assert_eq!(rinha.pending(), 1);
    assert_eq!(rinha.count_success_create_pessoa().amount, 1);
}

#[test]
fn malformed_request_with_a_taken_handle_is_malformed() {
    let mut rinha = MyRinha::new();
    rinha.create_pessoa_with_id(request("ana", "Ana", "1990-01-15", vec![]), "id-1".to_string());
    let reply = rinha.create_pessoa_with_id(request("ana", "Ana", "1990-13-40", vec![]), "id-2".to_string());
    assert_eq!(reply.status, 400);
}

#[test]
fn of_two_creations_racing_for_a_handle_the_first_wins() {
    for (first, second) in [("id-a", "id-b"), ("id-b", "id-a")] {
        let mut rinha = MyRinha::new();
        let won = rinha.create_pessoa_with_id(request("ana", first, "1990-01-15", vec![]), first.to_string());
        let lost = rinha.create_pessoa_with_id(request("ana", second, "1990-01-15", vec![]), second.to_string());
        assert_eq!((won.status, lost.status), (201, 422));
        assert_eq!(won.id, Some(first.to_string()));
        let body = rinha.pessoa_by_id(&by_id(first)).unwrap().json.unwrap();
        assert!(body.contains(&format!("\"nome\":\"{}\"", first)));
        assert_eq!(rinha.pessoa_by_id(&by_id(second)), None);
    }
}

#[test]
fn minted_creation_replies_with_a_fresh_identifier() {
    let mut rinha = MyRinha::new();
    let a = rinha.create_pessoa(request("ana", "Ana", "1990-01-15", vec![]));
    let b = rinha.create_pessoa(request("bob", "Bob", "1990-01-15", vec![]));
    assert_eq!((a.status, b.status), (201, 201));
    let (a, b) = (a.id.unwrap(), b.id.unwrap());
    assert_eq!(a.len(), 36);
    assert_ne!(a, b);
    let body = rinha.pessoa_by_id(&by_id(&a)).unwrap().json.unwrap();
    assert!(body.starts_with(&format!("{{\"id\":\"{}\",\"apelido\":\"ana\"", a)));
    assert_eq!(rinha.create_pessoa(request("", "Ana", "1990-01-15", vec![])).status, 400);
}

#[test]
fn queue_hands_records_out_in_the_order_of_acceptance() {
    let mut rinha = MyRinha::new();
    for (i, handle) in ["a", "b", "c"].iter().enumerate() {
        rinha.create_pessoa_with_id(request(handle, "N", "1990-01-15", vec![]), format!("id-{}", i));
    }
    assert_eq!(rinha.pending(), 3);
    assert_eq!(rinha.recv().unwrap().apelido, "a");
    assert_eq!(rinha.recv().unwrap().apelido, "b");
    assert_eq!(rinha.pending(), 1);
    rinha.create_pessoa_with_id(request("d", "N", "1990-01-15", vec![]), "id-3".to_string());
    assert_eq!(rinha.recv().unwrap().apelido, "c");
    assert_eq!(rinha.recv().unwrap().apelido, "d");
    assert_eq!(rinha.recv(), None);
    // Taking a record from the queue leaves it readable and its handle taken.
    assert!(rinha.pessoa_by_id(&by_id("id-0")).is_some());
    assert_eq!(rinha.create_pessoa_with_id(request("a", "N", "1990-01-15", vec![]), "id-9".to_string()).status, 422);
}

#[test]
fn lookup_reads_through_to_the_store() {
    let mut rinha = MyRinha::new();
    let fetched = Ok(Some(row("id-1", "ana", "Ana Silva", "1990-01-15", Some("rust go"))));
    let reply = rinha.pessoa_by_id_fetched(by_id("id-1"), fetched);
    assert_eq!(reply, Ok(PessoaReply { json: Some(ANA_JSON.to_string()) }));
    // The record is cached now.
    assert_eq!(rinha.pessoa_by_id(&by_id("id-1")), Some(PessoaReply { json: Some(ANA_JSON.to_string()) }));
    // A read-through does not claim the handle and queues nothing.
    assert_eq!(rinha.pending(), 0);
    assert_eq!(rinha.create_pessoa_with_id(request("ana", "A", "1990-01-15", vec![]), "id-2".to_string()).status, 201);
}

#[test]
fn lookup_of_an_unknown_identifier_is_empty() {
    let mut rinha = MyRinha::new();
    assert_eq!(rinha.pessoa_by_id_fetched(by_id("id-1"), Ok(None)), Ok(PessoaReply { json: None }));
    assert_eq!(rinha.pessoa_by_id(&by_id("id-1")), None);
}

#[test]
fn lookup_fails_when_the_store_fails() {
    let mut rinha = MyRinha::new();
    assert_eq!(rinha.pessoa_by_id_fetched(by_id("id-1"), Err(StoreError)), Err(Status::Unavailable));
    assert_eq!(rinha.pessoa_by_id(&by_id("id-1")), None);
}

#[test]
fn cached_record_wins_over_the_store() {
    let mut rinha = MyRinha::new();
    rinha.create_pessoa_with_id(request("ana", "Ana Silva", "1990-01-15", vec!["rust", "go"]), "id-1".to_string());
    let expected = Ok(PessoaReply { json: Some(ANA_JSON.to_string()) });
    assert_eq!(rinha.pessoa_by_id_fetched(by_id("id-1"), Err(StoreError)), expected);
    assert_eq!(rinha.pessoa_by_id_fetched(by_id("id-1"), Ok(None)), expected);
    let other = Ok(Some(row("id-1", "zed", "Zed", "1970-01-01", None)));
    assert_eq!(rinha.pessoa_by_id_fetched(by_id("id-1"), other), expected);
    assert_eq!(rinha.pessoa_by_id_fetched(by_id("id-1"), Ok(None)), expected);
}

#[test]
fn search_is_remembered_until_its_deadline() {
    let mut rinha = MyRinha::new();
    let rows = vec![row("id-1", "ana", "Ana Silva", "1990-01-15", Some("rust go"))];
    let body = format!("[{}]", ANA_JSON);
    let reply = rinha.pessoa_search_fetched(search("ana"), Ok(rows), 100);
    assert_eq!(reply, Ok(PessoaSearchReply { json: Some(body.clone()) }));
    let cached = Some(PessoaSearchReply { json: Some(body.clone()) });
    assert_eq!(rinha.pessoa_search(&search("ana"), 100), cached);
    assert_eq!(rinha.pessoa_search(&search("ana"), 100 + SEARCH_TTL_SECS - 1), cached);
    assert_eq!(rinha.pessoa_search(&search("ana"), 100 + SEARCH_TTL_SECS), None);
    // The key is the raw term.
    assert_eq!(rinha.pessoa_search(&search("Ana"), 100), None);
    // Within the window the remembered body wins over a newer answer.
    assert_eq!(rinha.pessoa_search_fetched(search("ana"), Ok(vec![]), 101), Ok(PessoaSearchReply { json: Some(body) }));
    // After it, the store's answer is taken and remembered anew.
    let later = 100 + SEARCH_TTL_SECS;
    assert_eq!(
        rinha.pessoa_search_fetched(search("ana"), Ok(vec![]), later),
        Ok(PessoaSearchReply { json: Some("[]".to_string()) })
    );
    assert_eq!(rinha.pessoa_search(&search("ana"), later + 1), Some(PessoaSearchReply { json: Some("[]".to_string()) }));
}

#[test]
fn search_ttl_is_at_most_a_minute() {
    assert!(SEARCH_TTL_SECS > 0);
    assert!(SEARCH_TTL_SECS <= 60);
}

#[test]
fn search_deadline_saturates() {
    let mut rinha = MyRinha::new();
    rinha.pessoa_search_fetched(search("x"), Ok(vec![]), u64::MAX - 1).unwrap();
    assert!(rinha.pessoa_search(&search("x"), u64::MAX - 1).is_some());
    assert!(rinha.pessoa_search(&search("x"), u64::MAX).is_none());
}

#[test]
fn search_fails_when_the_store_fails() {
    let mut rinha = MyRinha::new();
    assert_eq!(rinha.pessoa_search_fetched(search("ana"), Err(StoreError), 5), Err(Status::Unavailable));
    assert_eq!(rinha.pessoa_search(&search("ana"), 5), None);
}

#[test]
fn search_does_not_see_what_is_only_cached_by_identifier() {
    let mut rinha = MyRinha::new();
    rinha.create_pessoa_with_id(request("ana", "Ana", "1990-01-15", vec![]), "id-1".to_string());
    assert_eq!(rinha.pessoa_search(&search("ana"), 0), None);
}

#[test]
fn count_is_what_the_store_counted() {
    assert_eq!(MyRinha::count_pessoa(Ok(0)), Ok(CountPessoaReply { amount: 0 }));
    assert_eq!(MyRinha::count_pessoa(Ok(46_000)), Ok(CountPessoaReply { amount: 46_000 }));
    assert_eq!(MyRinha::count_pessoa(Ok(i64::MAX)), Ok(CountPessoaReply { amount: i64::MAX as u64 }));
    assert_eq!(MyRinha::count_pessoa(Err(StoreError)), Err(Status::Unavailable));
    assert_eq!(MyRinha::count_pessoa(Ok(-1)), Err(Status::Unavailable));
}
