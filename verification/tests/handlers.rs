use rinha::handlers::{
    all, all_fetched, count, create, created_response, found_response, get, get_fetched,
    listed_response, AppState, HttpResponse, SearchInput, Step,
};
use rinha::pessoa::{PessoaInput, PessoaRow};
use rinha::service::{
    CreatePessoaReply, MyRinha, PessoaReply, PessoaSearchReply, Status, StoreError,
    SEARCH_TTL_SECS,
};
use rinha::store::StoreQuery;

fn input(apelido: &str, nome: &str, nascimento: &str, stack: Option<Vec<&str>>) -> PessoaInput {
    PessoaInput {
        apelido: apelido.to_string(),
        nome: nome.to_string(),
        nascimento: nascimento.to_string(),
        stack: stack.map(|items| items.into_iter().map(|s| s.to_string()).collect()),
    }
}

fn empty(status: u16) -> HttpResponse {
    HttpResponse { status, location: None, json: false, body: None }
}

fn json(body: &str) -> HttpResponse {
    HttpResponse { status: 200, location: None, json: true, body: Some(body.to_string()) }
}

fn created_id(response: &HttpResponse) -> String {
    let location = response.location.clone().unwrap();
    assert!(location.starts_with("/pessoas/"));
    location["/pessoas/".len()..].to_string()
}

#[test]
fn happy_create_then_get() {
    let mut app_state = AppState::from(MyRinha::new());
    let response = create(
        input("ana", "Ana Silva", "1990-01-15", Some(vec!["rust", "go"])),
        &mut app_state,
    );
    assert_eq!(response.status, 201);
    assert_eq!(response.body, None);
    let id = created_id(&response);
    assert_eq!(id.len(), 36);
    match get(id.clone(), &app_state) {
        Step::Done(found) => {
            assert_eq!(found.status, 200);
            assert!(found.json);
            let body = found.body.unwrap();
            assert!(body.contains("\"apelido\":\"ana\""));
            assert!(body.contains("\"stack\":[\"rust\",\"go\"]"));
            assert!(body.contains(&format!("\"id\":\"{}\"", id)));
        }
        Step::AskStore(_) => panic!("a created record is read from the cache"),
    }
}

#[test]
fn handle_conflict() {
    let mut app_state = AppState::from(MyRinha::new());
    let first = create(input("ana", "Ana Silva", "1990-01-15", Some(vec!["rust", "go"])), &mut app_state);
    assert_eq!(first.status, 201);
    let second = create(input("ana", "Another", "1980-02-02", None), &mut app_state);
    assert_eq!(second, empty(422));
}

#[test]
fn malformed_date() {
    let mut app_state = AppState::from(MyRinha::new());
    let response = create(input("b", "B", "1990-13-40", None), &mut app_state);
    assert_eq!(response, empty(400));
    assert_eq!(app_state.rinha.pending(), 0);
}

#[test]
fn oversize_handle() {
    let mut app_state = AppState::from(MyRinha::new());
    let response = create(input(&"a".repeat(33), "B", "1990-01-15", None), &mut app_state);
    assert_eq!(response, empty(400));
    assert_eq!(app_state.rinha.pending(), 0);
}

#[test]
fn repeated_gets_return_the_same_body() {
    let mut app_state = AppState::from(MyRinha::new());
    let id = created_id(&create(input("ana", "Ana", "1990-01-15", None), &mut app_state));
    let first = get(id.clone(), &app_state);
    let second = get(id.clone(), &app_state);
    assert_eq!(first, second);
    let third = get_fetched(id.clone(), Ok(None), &mut app_state);
    assert_eq!(first, Step::Done(third));
}

#[test]
fn get_of_an_uncached_record_asks_the_store() {
    let app_state = AppState::from(MyRinha::new());
    assert_eq!(
        get("id-1".to_string(), &app_state),
        Step::AskStore(StoreQuery::ById { id: "id-1".to_string() })
    );
}

#[test]
fn get_answers_with_what_the_store_found() {
    let mut app_state = AppState::from(MyRinha::new());
    let row = PessoaRow {
        id: "id-1".to_string(),
        nome: "Ana".to_string(),
        apelido: "ana".to_string(),
        nascimento: "1990-01-15".to_string(),
        stack: None,
    };
    let body = "{\"id\":\"id-1\",\"apelido\":\"ana\",\"nome\":\"Ana\",\"nascimento\":\"1990-01-15\",\"stack\":null}";
    assert_eq!(get_fetched("id-1".to_string(), Ok(Some(row)), &mut app_state), json(body));
    assert_eq!(get("id-1".to_string(), &app_state), Step::Done(json(body)));
}

#[test]
fn get_of_a_missing_record_is_not_found() {
    let mut app_state = AppState::from(MyRinha::new());
    assert_eq!(get_fetched("id-1".to_string(), Ok(None), &mut app_state), empty(404));
}

#[test]
fn get_is_a_server_error_when_the_store_fails() {
    let mut app_state = AppState::from(MyRinha::new());
    assert_eq!(get_fetched("id-1".to_string(), Err(StoreError), &mut app_state), empty(500));
}

#[test]
fn durability_gap() {
    // The store is offline: nothing created here ever reaches it.
    let mut app_state = AppState::from(MyRinha::new());
    let id = created_id(&create(input("c", "C", "1990-01-15", None), &mut app_state));
    match get(id.clone(), &app_state) {
        Step::Done(found) => assert_eq!(found.status, 200),
        Step::AskStore(_) => panic!("a created record is read from the cache"),
    }
    // After a restart the cache is empty, and the store never saw the record.
    let mut restarted = AppState::from(MyRinha::new());
    assert_eq!(get(id.clone(), &restarted), Step::AskStore(StoreQuery::ById { id: id.clone() }));
    assert_eq!(get_fetched(id, Ok(None), &mut restarted), empty(404));
}

#[test]
fn search_read_through() {
    let mut app_state = AppState::from(MyRinha::new());
    let id = created_id(&create(
        input("ana", "Ana Silva", "1990-01-15", Some(vec!["rust", "go"])),
        &mut app_state,
    ));
    // The batch is flushed: the record leaves the queue and is now a row.
    let flushed = app_state.rinha.recv().unwrap().to_row();
    assert_eq!(flushed.stack, Some("rust go".to_string()));
    let term = SearchInput { t: "ana".to_string() };
    assert_eq!(
        all(term.clone(), &app_state, 10),
        Step::AskStore(StoreQuery::Search { pattern: "%ana%".to_string(), limit: 50 })
    );
    let first = all_fetched(term.clone(), Ok(vec![flushed]), &mut app_state, 10);
    assert_eq!(first.status, 200);
    assert!(first.json);
    let body = first.body.clone().unwrap();
    assert!(body.starts_with("[{"));
    assert!(body.contains(&format!("\"id\":\"{}\"", id)));
    assert!(body.contains("\"stack\":[\"rust\",\"go\"]"));
    // A second identical request within the window gets the same bytes.
    assert_eq!(all(term.clone(), &app_state, 10 + SEARCH_TTL_SECS - 1), Step::Done(first.clone()));
    assert_eq!(all_fetched(term.clone(), Err(StoreError), &mut app_state, 12), first);
    // Once the window is over the store is asked again.
    assert_eq!(
        all(term, &app_state, 10 + SEARCH_TTL_SECS),
        Step::AskStore(StoreQuery::Search { pattern: "%ana%".to_string(), limit: 50 })
    );
}

#[test]
fn search_lower_cases_the_term_for_the_store() {
    let app_state = AppState::from(MyRinha::new());
    assert_eq!(
        all(SearchInput { t: "ANA Silva".to_string() }, &app_state, 0),
        Step::AskStore(StoreQuery::Search { pattern: "%ana silva%".to_string(), limit: 50 })
    );
}

#[test]
fn search_is_a_server_error_when_the_store_fails() {
    let mut app_state = AppState::from(MyRinha::new());
    let response = all_fetched(SearchInput { t: "x".to_string() }, Err(StoreError), &mut app_state, 0);
    assert_eq!(response, empty(500));
}

#[test]
fn search_without_matches_is_an_empty_array() {
    let mut app_state = AppState::from(MyRinha::new());
    let response = all_fetched(SearchInput { t: "x".to_string() }, Ok(vec![]), &mut app_state, 0);
    assert_eq!(response, json("[]"));
}

#[test]
fn count_responds_with_the_number() {
    assert_eq!(count(Ok(0)), json("0"));
    assert_eq!(count(Ok(1234)), json("1234"));
    assert_eq!(count(Err(StoreError)), empty(500));
    assert_eq!(count(Ok(-5)), empty(500));
}

#[test]
fn creation_reply_becomes_status_and_location() {
    let accepted = CreatePessoaReply { id: Some("abc".to_string()), status: 201 };
    assert_eq!(
        created_response(accepted),
        HttpResponse { status: 201, location: Some("/pessoas/abc".to_string()), json: false, body: None }
    );
    assert_eq!(created_response(CreatePessoaReply { id: None, status: 422 }), empty(422));
    assert_eq!(created_response(CreatePessoaReply { id: None, status: 400 }), empty(400));
}

#[test]
fn lookup_reply_becomes_a_response() {
    assert_eq!(found_response(Ok(PessoaReply { json: Some("{}".to_string()) })), json("{}"));
    assert_eq!(found_response(Ok(PessoaReply { json: None })), empty(404));
    assert_eq!(found_response(Err(Status::Unavailable)), empty(500));
    assert_eq!(found_response(Err(Status::Internal)), empty(500));
}

#[test]
fn search_reply_becomes_a_response() {
    assert_eq!(listed_response(Ok(PessoaSearchReply { json: Some("[]".to_string()) })), json("[]"));
    assert_eq!(listed_response(Ok(PessoaSearchReply { json: None })), empty(500));
    assert_eq!(listed_response(Err(Status::Unavailable)), empty(500));
}
