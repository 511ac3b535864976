//! The four operations of the HTTP surface: create, get by identifier, search
//! and count.
//!
//! A handler turns a request into a call of the service and the service's
//! reply into a response: status, `Location` header, content type and body.
//! Where the store has to be asked first, the handler says so, and a second
//! handler takes the store's answer.

use crate::pessoa::{is_id_text, CreatePessoaRequest, PessoaInput, PessoaInputView, PessoaRow};
use crate::service::{
    count_outcome, reply_view, row_answer, rows_answer, search_reply_view, CountPessoaReply,
    CreatePessoaReply, CreatePessoaReplyView, MyRinha, PessoaByIdRequest, PessoaReply,
    PessoaSearchReply, PessoaSearchRequest, RinhaView, Status, StoreError, STATUS_BAD_REQUEST,
    STATUS_INTERNAL_SERVER_ERROR, STATUS_NOT_FOUND, STATUS_OK,
};
use crate::cache::lookup;
use crate::store::{like_pattern, search_query, StoreQuery};
use crate::service::SEARCH_LIMIT;
use crate::text::{chain, decimal, decimal_digits, lowercased, opt_text};
use vstd::prelude::*;

verus! {

/// The path under which records are created and read.
pub const PESSOAS_PATH: &'static str = "/pessoas/";

/// The query of a search: the term under the name `t`.
#[derive(Clone, Debug, PartialEq, Eq)]
pub struct SearchInput {
    pub t: String,
}

/// A response to an HTTP request.
#[derive(Clone, Debug, PartialEq, Eq)]
pub struct HttpResponse {
    /// The status code.
    pub status: u16,
    /// The value of the `Location` header, where there is one.
    pub location: Option<String>,
    /// Whether the content type is JSON.
    pub json: bool,
    /// The body, where there is one.
    pub body: Option<String>,
}

/// The content of an `HttpResponse`.
pub struct HttpResponseView {
    pub status: u16,
    pub location: Option<Seq<char>>,
    pub json: bool,
    pub body: Option<Seq<char>>,
}

impl View for HttpResponse {
    type V = HttpResponseView;

    open spec fn view(&self) -> HttpResponseView {
        HttpResponseView {
            status: self.status,
            location: opt_text(self.location),
            json: self.json,
            body: opt_text(self.body),
        }
    }
}

/// What a handler has reached: a response, or a question to the store whose
/// answer the matching second handler takes.
#[derive(Clone, Debug, PartialEq, Eq)]
pub enum Step {
    Done(HttpResponse),
    AskStore(StoreQuery),
}

/// What the handlers share: the service.
pub struct AppState {
    pub rinha: MyRinha,
}

/// A response without header or body.
pub open spec fn http_empty(status: u16) -> HttpResponseView {
    HttpResponseView { status, location: None, json: false, body: None }
}

/// A response with a JSON body.
pub open spec fn http_json(body: Seq<char>) -> HttpResponseView {
    HttpResponseView { status: STATUS_OK, location: None, json: true, body: Some(body) }
}

/// The response to a creation: the service's status and, where a record was
/// created, the path of the record in the `Location` header.
pub open spec fn http_created(reply: CreatePessoaReplyView) -> HttpResponseView {
    HttpResponseView {
        status: reply.status,
        location: match reply.id {
            Some(id) => Some(PESSOAS_PATH@ + id),
            None => None,
        },
        json: false,
        body: None,
    }
}

/// The response to a lookup by identifier: the record, 404 where there is
/// none, 500 where the service failed.
pub open spec fn http_found(reply: Result<Option<Seq<char>>, Status>) -> HttpResponseView {
    match reply {
        Ok(Some(json)) => http_json(json),
        Ok(None) => http_empty(STATUS_NOT_FOUND),
        Err(_) => http_empty(STATUS_INTERNAL_SERVER_ERROR),
    }
}

/// The response to a search: the array of records, or 500 where the service
/// has none to give.
pub open spec fn http_listed(reply: Result<Option<Seq<char>>, Status>) -> HttpResponseView {
    match reply {
        Ok(Some(json)) => http_json(json),
        _ => http_empty(STATUS_INTERNAL_SERVER_ERROR),
    }
}

/// The response to a count: the number in decimal, or 500 where the service
/// failed.
pub open spec fn http_counted(reply: Result<CountPessoaReply, Status>) -> HttpResponseView {
    match reply {
        Ok(counted) => http_json(decimal_digits(counted.amount as nat)),
        Err(_) => http_empty(STATUS_INTERNAL_SERVER_ERROR),
    }
}

/// What creating from `input` does to the service and responds when the
/// identifier minted for it is `id`.
pub open spec fn created(state: RinhaView, input: PessoaInputView, id: Seq<char>) -> (
    RinhaView,
    HttpResponseView,
) {
    let (after, reply) = state.create(input.request(), id);
    (after, http_created(reply))
}

/// The response that a remembered search result gives at the second `now`.
pub open spec fn http_remembered(state: RinhaView, term: Seq<char>, now: u64) -> Option<
    HttpResponseView,
> {
    match lookup(state.by_search, term, now) {
        Some(json) => Some(http_json(json)),
        None => None,
    }
}

fn empty_response(status: u16) -> (response: HttpResponse)
    ensures
        response@ == http_empty(status),
{
    HttpResponse { status, location: None, json: false, body: None }
}

fn json_response(body: String) -> (response: HttpResponse)
    ensures
        response@ == http_json(body@),
{
    HttpResponse { status: STATUS_OK, location: None, json: true, body: Some(body) }
}

/// The response to a creation, given the service's reply.
pub fn created_response(reply: CreatePessoaReply) -> (response: HttpResponse)
    ensures
        response@ == http_created(reply@),
{
    let location = match reply.id {
        Some(id) => Some(chain(PESSOAS_PATH, id.as_str())),
        None => None,
    };
    HttpResponse { status: reply.status, location, json: false, body: None }
}

/// The response to a lookup by identifier, given the service's reply.
pub fn found_response(reply: Result<PessoaReply, Status>) -> (response: HttpResponse)
    ensures
        response@ == http_found(reply_view(reply)),
{
    match reply {
        Ok(found) => match found.json {
            Some(json) => json_response(json),
            None => empty_response(STATUS_NOT_FOUND),
        },
        Err(_) => empty_response(STATUS_INTERNAL_SERVER_ERROR),
    }
}

/// The response to a search, given the service's reply.
pub fn listed_response(reply: Result<PessoaSearchReply, Status>) -> (response: HttpResponse)
    ensures
        response@ == http_listed(search_reply_view(reply)),
{
    match reply {
        Ok(found) => match found.json {
            Some(json) => json_response(json),
            None => empty_response(STATUS_INTERNAL_SERVER_ERROR),
        },
        Err(_) => empty_response(STATUS_INTERNAL_SERVER_ERROR),
    }
}

/// The response to a count, given the service's reply.
pub fn counted_response(reply: Result<CountPessoaReply, Status>) -> (response: HttpResponse)
    ensures
        response@ == http_counted(reply),
{
    match reply {
        Ok(counted) => json_response(decimal(counted.amount)),
        Err(_) => empty_response(STATUS_INTERNAL_SERVER_ERROR),
    }
}

impl AppState {
    /// The state of the handlers around a service.
    pub fn from(rinha: MyRinha) -> (app_state: AppState)
        ensures
            app_state.rinha == rinha,
    {
        AppState { rinha }
    }
}

/// `POST /pessoas`: validates the input, claims the handle, makes the record
/// readable by identifier and queues it for the store. Responds 201 with the
/// record's path, 400 to malformed input, 422 where the handle is taken, 500
/// where the record has no JSON form. Malformed input changes nothing.
pub fn create(input: PessoaInput, app_state: &mut AppState) -> (response: HttpResponse)
    requires
        old(app_state).rinha.wf(),
    ensures
        final(app_state).rinha.wf(),
        !input@.valid() ==> final(app_state).rinha@ == old(app_state).rinha@ && response@
            == http_empty(STATUS_BAD_REQUEST),
        input@.valid() ==> exists|id: Seq<char>|
            is_id_text(id) && (final(app_state).rinha@, response@) == #[trigger] created(
                old(app_state).rinha@,
                input@,
                id,
            ),
{
    let request = CreatePessoaRequest::from(input);
    let reply = app_state.rinha.create_pessoa(request);
    proof {
        if input@.valid() {
            let id = choose|id: Seq<char>|
                is_id_text(id) && (app_state.rinha@, reply@) == #[trigger] old(
                    app_state,
                ).rinha@.create(input@.request(), id);
            assert((app_state.rinha@, http_created(reply@)) == created(
                old(app_state).rinha@,
                input@,
                id,
            ));
        }
    }
    created_response(reply)
}

/// `GET /pessoas/{id}`, first step: responds with the cached record, or asks
/// the store for the row with this identifier.
pub fn get(id: String, app_state: &AppState) -> (step: Step)
    ensures
        app_state.rinha@.by_id.contains_key(id@) ==> (step matches Step::Done(response)
            && response@ == http_json(app_state.rinha@.by_id[id@])),
        !app_state.rinha@.by_id.contains_key(id@) ==> (step matches Step::AskStore(
            StoreQuery::ById { id: asked },
        ) && asked@ == id@),
{
    let request = PessoaByIdRequest { id };
    match app_state.rinha.pessoa_by_id(&request) {
        Some(reply) => Step::Done(found_response(Ok(reply))),
        None => Step::AskStore(StoreQuery::ById { id: request.id }),
    }
}

/// `GET /pessoas/{id}`, second step: responds given the store's answer. A
/// record cached in the meantime wins; a row is read back, cached and sent;
/// no row gives 404; a failure of the store gives 500.
pub fn get_fetched(
    id: String,
    fetched: Result<Option<PessoaRow>, StoreError>,
    app_state: &mut AppState,
) -> (response: HttpResponse)
    requires
        old(app_state).rinha.wf(),
    ensures
        final(app_state).rinha.wf(),
        final(app_state).rinha@ == old(app_state).rinha@.by_id_with(id@, row_answer(fetched)).0,
        response@ == http_found(old(app_state).rinha@.by_id_with(id@, row_answer(fetched)).1),
{
    let reply = app_state.rinha.pessoa_by_id_fetched(PessoaByIdRequest { id }, fetched);
    found_response(reply)
}

/// `GET /pessoas?t=`, first step at the second `now`: responds with the
/// remembered result for the raw term if it still counts, or asks the store
/// for at most `SEARCH_LIMIT` rows that match the lower-cased term.
pub fn all(input: SearchInput, app_state: &AppState, now: u64) -> (step: Step)
    ensures
        lookup(app_state.rinha@.by_search, input.t@, now) is Some ==> (step matches Step::Done(
            response,
        ) && Some(response@) == http_remembered(app_state.rinha@, input.t@, now)),
        lookup(app_state.rinha@.by_search, input.t@, now) is None ==> (step matches
            Step::AskStore(StoreQuery::Search { pattern, limit }) && pattern@ == like_pattern(
            lowercased(input.t@),
        ) && limit == SEARCH_LIMIT),
{
    let request = PessoaSearchRequest { term: input.t };
    match app_state.rinha.pessoa_search(&request, now) {
        Some(reply) => Step::Done(listed_response(Ok(reply))),
        None => Step::AskStore(search_query(request.term.as_str())),
    }
}

/// `GET /pessoas?t=`, second step at the second `now`: responds given the
/// store's answer. A result remembered in the meantime wins; rows are read
/// back, written as an array, remembered and sent; a failure of the store
/// gives 500.
pub fn all_fetched(
    input: SearchInput,
    fetched: Result<Vec<PessoaRow>, StoreError>,
    app_state: &mut AppState,
    now: u64,
) -> (response: HttpResponse)
    requires
        old(app_state).rinha.wf(),
    ensures
        final(app_state).rinha.wf(),
        final(app_state).rinha@ == old(app_state).rinha@.search_with(
            input.t@,
            rows_answer(fetched),
            now,
        ).0,
        response@ == http_listed(
            old(app_state).rinha@.search_with(input.t@, rows_answer(fetched), now).1,
        ),
{
    let reply = app_state.rinha.pessoa_search_fetched(
        PessoaSearchRequest { term: input.t },
        fetched,
        now,
    );
    listed_response(reply)
}

/// `GET /contagem-pessoas`: responds with what the store counted, or 500
/// where the store failed. The cache is not consulted.
pub fn count(counted: Result<i64, StoreError>) -> (response: HttpResponse)
    ensures
        response@ == http_counted(count_outcome(counted)),
{
    counted_response(MyRinha::count_pessoa(counted))
}

} // verus!
