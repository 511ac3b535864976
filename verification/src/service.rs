//! The service behind the HTTP surface: the three indexes of the cache, the
//! ingest queue, and the operations that keep them consistent.
//!
//! The store is not reached from here. An operation that needs it comes in two
//! steps: a look at the cache, and a step that takes what the store answered.

use crate::cache::{
    bodies, lookup, map_entries, map_get, map_insert, map_new, set_insert, set_members,
    set_new, Entries, Entry,
};
use crate::json::{pessoa_json, pessoa_views, pessoas_json, to_json_array};
use crate::pessoa::{
    CreatePessoaRequest, CreatePessoaRequestView, Pessoa, PessoaRow, PessoaRowView, PessoaView,
    is_id_text,
};
use crate::text::opt_text;
use dashmap::DashMap;
use dashmap::DashSet;
use std::collections::VecDeque;
use vstd::prelude::*;

verus! {

/// Status of a reply that carries what was asked for.
pub const STATUS_OK: u16 = 200;

/// Status of a reply to a creation that was accepted.
pub const STATUS_CREATED: u16 = 201;

/// Status of a reply to malformed input.
pub const STATUS_BAD_REQUEST: u16 = 400;

/// Status of a reply to a lookup that found nothing.
pub const STATUS_NOT_FOUND: u16 = 404;

/// Status of a reply to a creation whose handle is taken.
pub const STATUS_UNPROCESSABLE_ENTITY: u16 = 422;

/// Status of a reply to a request that failed inside the service.
pub const STATUS_INTERNAL_SERVER_ERROR: u16 = 500;

/// Seconds for which a remembered search result is served.
pub const SEARCH_TTL_SECS: u64 = 15;

/// Most rows that a search asks of the store.
pub const SEARCH_LIMIT: u32 = 50;

/// The store could not be reached, or refused the query.
#[derive(Clone, Copy, Debug, PartialEq, Eq)]
pub struct StoreError;

/// Why the service could not answer.
#[derive(Clone, Copy, Debug, PartialEq, Eq, Structural)]
pub enum Status {
    /// The store failed.
    Unavailable,
    /// A record could not be written as JSON.
    Internal,
}

/// Reply to a creation request.
#[derive(Clone, Debug, PartialEq, Eq)]
pub struct CreatePessoaReply {
    pub id: Option<String>,
    pub status: u16,
}

/// The content of a `CreatePessoaReply`.
pub struct CreatePessoaReplyView {
    pub id: Option<Seq<char>>,
    pub status: u16,
}

impl View for CreatePessoaReply {
    type V = CreatePessoaReplyView;

    open spec fn view(&self) -> CreatePessoaReplyView {
        CreatePessoaReplyView { id: opt_text(self.id), status: self.status }
    }
}

/// Request for the record with a given identifier.
#[derive(Clone, Debug, PartialEq, Eq)]
pub struct PessoaByIdRequest {
    pub id: String,
}

/// Reply to a lookup by identifier: the record's canonical JSON, if there is
/// such a record.
#[derive(Clone, Debug, PartialEq, Eq)]
pub struct PessoaReply {
    pub json: Option<String>,
}

impl View for PessoaReply {
    type V = Option<Seq<char>>;

    open spec fn view(&self) -> Option<Seq<char>> {
        opt_text(self.json)
    }
}

/// Request for the records that match a term.
#[derive(Clone, Debug, PartialEq, Eq)]
pub struct PessoaSearchRequest {
    pub term: String,
}

/// Reply to a search: a JSON array of records.
#[derive(Clone, Debug, PartialEq, Eq)]
pub struct PessoaSearchReply {
    pub json: Option<String>,
}

impl View for PessoaSearchReply {
    type V = Option<Seq<char>>;

    open spec fn view(&self) -> Option<Seq<char>> {
        opt_text(self.json)
    }
}

/// Reply to a count.
#[derive(Clone, Copy, Debug, PartialEq, Eq, Structural)]
pub struct CountPessoaReply {
    pub amount: u64,
}

/// What the store answered to a lookup by identifier.
pub open spec fn row_answer(fetched: Result<Option<PessoaRow>, StoreError>) -> Result<
    Option<PessoaRowView>,
    StoreError,
> {
    match fetched {
        Ok(Some(row)) => Ok(Some(row@)),
        Ok(None) => Ok(None),
        Err(e) => Err(e),
    }
}

/// The views of a list of rows.
pub open spec fn row_views(rows: Seq<PessoaRow>) -> Seq<PessoaRowView> {
    Seq::new(rows.len(), |i: int| rows[i]@)
}

/// The records that a list of rows is read back as.
pub open spec fn row_records(rows: Seq<PessoaRowView>) -> Seq<PessoaView> {
    Seq::new(rows.len(), |i: int| rows[i].record())
}

/// What the store answered to a search.
pub open spec fn rows_answer(fetched: Result<Vec<PessoaRow>, StoreError>) -> Result<
    Seq<PessoaRowView>,
    StoreError,
> {
    match fetched {
        Ok(rows) => Ok(row_views(rows@)),
        Err(e) => Err(e),
    }
}

/// The second from which a search result remembered at `now` no longer counts.
pub open spec fn search_deadline(now: u64) -> u64 {
    if now + SEARCH_TTL_SECS > u64::MAX {
        u64::MAX
    } else {
        (now + SEARCH_TTL_SECS) as u64
    }
}

/// The state of the service.
pub struct RinhaView {
    /// The handles seen.
    pub handles: Set<Seq<char>>,
    /// Identifier to canonical JSON.
    pub by_id: Map<Seq<char>, Seq<char>>,
    /// Raw search term to JSON array, with the second of expiry.
    pub by_search: Entries,
    /// Every record accepted so far, oldest first.
    pub accepted: Seq<PessoaView>,
    /// How many of them have left the ingest queue.
    pub taken: nat,
    /// Counter of accepted creations.
    pub created: u64,
}

impl RinhaView {
    /// The state of a service that has seen nothing yet.
    pub open spec fn empty() -> RinhaView {
        RinhaView {
            handles: Set::empty(),
            by_id: Map::empty(),
            by_search: Map::empty(),
            accepted: Seq::empty(),
            taken: 0,
            created: 0,
        }
    }

    /// The ingest queue: the accepted records that have not been taken yet,
    /// oldest first.
    pub open spec fn queue(self) -> Seq<PessoaView> {
        self.accepted.skip(self.taken as int)
    }

    /// What always holds of the state.
    pub open spec fn wf(self) -> bool {
        &&& self.taken <= self.accepted.len()
        &&& forall|i: int|
            0 <= i < self.accepted.len() ==> {
                &&& self.handles.contains(#[trigger] self.accepted[i].apelido)
                &&& self.by_id.contains_key(self.accepted[i].id)
                &&& self.accepted[i].valid()
            }
        &&& forall|h: Seq<char>| #[trigger]
            self.handles.contains(h) ==> exists|i: int|
                0 <= i < self.accepted.len() && #[trigger] self.accepted[i].apelido == h
        &&& forall|i: int, j: int|
            0 <= i < j < self.accepted.len() ==> #[trigger] self.accepted[i].apelido
                != #[trigger] self.accepted[j].apelido
    }

    /// The state after `pessoa`, whose canonical JSON is `json`, was accepted.
    pub open spec fn accept(self, pessoa: PessoaView, json: Seq<char>) -> RinhaView {
        RinhaView {
            handles: self.handles.insert(pessoa.apelido),
            by_id: self.by_id.insert(pessoa.id, json),
            accepted: self.accepted.push(pessoa),
            created: self.created.wrapping_add(1),
            ..self
        }
    }

    /// What registering a validated record does and replies.
    pub open spec fn register(self, pessoa: PessoaView) -> (RinhaView, CreatePessoaReplyView) {
        match pessoa_json(pessoa) {
            None => (self, CreatePessoaReplyView { id: None, status: STATUS_INTERNAL_SERVER_ERROR }),
            Some(json) => if self.handles.contains(pessoa.apelido) {
                (self, CreatePessoaReplyView { id: None, status: STATUS_UNPROCESSABLE_ENTITY })
            } else {
                (
                    self.accept(pessoa, json),
                    CreatePessoaReplyView { id: Some(pessoa.id), status: STATUS_CREATED },
                )
            },
        }
    }

    /// What a creation request does and replies when the identifier minted for
    /// it is `id`.
    pub open spec fn create(self, request: CreatePessoaRequestView, id: Seq<char>) -> (
        RinhaView,
        CreatePessoaReplyView,
    ) {
        if request.valid() {
            self.register(request.record(id))
        } else {
            (self, CreatePessoaReplyView { id: None, status: STATUS_BAD_REQUEST })
        }
    }

    /// What a lookup by identifier does and replies, given the store's answer
    /// for the case that the cache misses.
    pub open spec fn by_id_with(
        self,
        id: Seq<char>,
        fetched: Result<Option<PessoaRowView>, StoreError>,
    ) -> (RinhaView, Result<Option<Seq<char>>, Status>) {
        if self.by_id.contains_key(id) {
            (self, Ok(Some(self.by_id[id])))
        } else {
            match fetched {
                Err(_) => (self, Err(Status::Unavailable)),
                Ok(None) => (self, Ok(None)),
                Ok(Some(row)) => match pessoa_json(row.record()) {
                    None => (self, Err(Status::Internal)),
                    Some(json) => (
                        RinhaView { by_id: self.by_id.insert(id, json), ..self },
                        Ok(Some(json)),
                    ),
                },
            }
        }
    }

    /// What a search does and replies at the second `now`, given the store's
    /// answer for the case that the cache misses.
    pub open spec fn search_with(
        self,
        term: Seq<char>,
        fetched: Result<Seq<PessoaRowView>, StoreError>,
        now: u64,
    ) -> (RinhaView, Result<Option<Seq<char>>, Status>) {
        match lookup(self.by_search, term, now) {
            Some(json) => (self, Ok(Some(json))),
            None => match fetched {
                Err(_) => (self, Err(Status::Unavailable)),
                Ok(rows) => match pessoas_json(row_records(rows)) {
                    None => (self, Err(Status::Internal)),
                    Some(json) => (
                        RinhaView {
                            by_search: self.by_search.insert(
                                term,
                                (json, Some(search_deadline(now))),
                            ),
                            ..self
                        },
                        Ok(Some(json)),
                    ),
                },
            },
        }
    }

    /// The state after the oldest queued record was taken.
    pub open spec fn take(self) -> RinhaView {
        RinhaView { taken: self.taken + 1, ..self }
    }
}

/// Accepting a valid record with an unseen handle keeps the state well formed.
pub proof fn lemma_accept_wf(state: RinhaView, pessoa: PessoaView, json: Seq<char>)
    requires
        state.wf(),
        pessoa.valid(),
        !state.handles.contains(pessoa.apelido),
    ensures
        state.accept(pessoa, json).wf(),
{
    let after = state.accept(pessoa, json);
    let n = state.accepted.len() as int;
    assert forall|i: int| 0 <= i < after.accepted.len() implies {
        &&& after.handles.contains(#[trigger] after.accepted[i].apelido)
        &&& after.by_id.contains_key(after.accepted[i].id)
        &&& after.accepted[i].valid()
    } by {
        if i < n {
            assert(after.accepted[i] == state.accepted[i]);
            assert(state.handles.contains(state.accepted[i].apelido));
        }
    }
    assert forall|h: Seq<char>| #[trigger] after.handles.contains(h) implies exists|i: int|
        0 <= i < after.accepted.len() && #[trigger] after.accepted[i].apelido == h by {
        if h == pessoa.apelido {
            assert(after.accepted[n].apelido == h);
        } else {
            assert(state.handles.contains(h));
            let i = choose|i: int|
                0 <= i < state.accepted.len() && #[trigger] state.accepted[i].apelido == h;
            assert(after.accepted[i].apelido == h);
        }
    }
    assert forall|i: int, j: int| 0 <= i < j < after.accepted.len() implies #[trigger]
        after.accepted[i].apelido != #[trigger] after.accepted[j].apelido by {
        assert(after.accepted[i] == state.accepted[i]);
        assert(state.handles.contains(state.accepted[i].apelido));
        if j < n {
            assert(after.accepted[j] == state.accepted[j]);
        }
    }
}

/// What counting does, given the store's answer.
pub open spec fn count_outcome(counted: Result<i64, StoreError>) -> Result<
    CountPessoaReply,
    Status,
> {
    match counted {
        Ok(amount) => if amount >= 0 {
            Ok(CountPessoaReply { amount: amount as u64 })
        } else {
            Err(Status::Unavailable)
        },
        Err(_) => Err(Status::Unavailable),
    }
}

/// The view of a reply or of the reason why there is none.
pub open spec fn reply_view(reply: Result<PessoaReply, Status>) -> Result<
    Option<Seq<char>>,
    Status,
> {
    match reply {
        Ok(found) => Ok(found@),
        Err(status) => Err(status),
    }
}

/// The view of a search reply or of the reason why there is none.
pub open spec fn search_reply_view(reply: Result<PessoaSearchReply, Status>) -> Result<
    Option<Seq<char>>,
    Status,
> {
    match reply {
        Ok(found) => Ok(found@),
        Err(status) => Err(status),
    }
}

/// The service: handles seen, records by identifier, search results by term,
/// the ingest queue and the counter of accepted creations.
pub struct MyRinha {
    pessoa_by_apelido_exists_set: DashSet<String>,
    pessoa_by_id_map: DashMap<String, Entry>,
    pessoa_search_map: DashMap<String, Entry>,
    pessoa_queue: VecDeque<Pessoa>,
    pessoa_create_count: u64,
    accepted: Ghost<Seq<PessoaView>>,
    taken: Ghost<nat>,
}

impl View for MyRinha {
    type V = RinhaView;

    closed spec fn view(&self) -> RinhaView {
        RinhaView {
            handles: set_members(self.pessoa_by_apelido_exists_set),
            by_id: bodies(map_entries(self.pessoa_by_id_map)),
            by_search: map_entries(self.pessoa_search_map),
            accepted: self.accepted@,
            taken: self.taken@,
            created: self.pessoa_create_count,
        }
    }
}

impl MyRinha {
    /// The state is well formed and the queue in memory is the one of the view.
    pub closed spec fn wf(&self) -> bool {
        &&& self@.wf()
        &&& pessoa_views(self.pessoa_queue@) == self@.queue()
    }

    /// A service that has seen nothing yet.
    pub fn new() -> (rinha: MyRinha)
        ensures
            rinha.wf(),
            rinha@ == RinhaView::empty(),
    {
        let rinha = MyRinha {
            pessoa_by_apelido_exists_set: set_new(),
            pessoa_by_id_map: map_new(),
            pessoa_search_map: map_new(),
            pessoa_queue: VecDeque::new(),
            pessoa_create_count: 0,
            accepted: Ghost(Seq::empty()),
            taken: Ghost(0),
        };
        proof {
            assert(rinha@.by_id == Map::<Seq<char>, Seq<char>>::empty());
            assert(pessoa_views(rinha.pessoa_queue@) == rinha@.queue());
        }
        rinha
    }

    /// Registers a validated record: claims its handle, makes it readable by
    /// identifier and queues it for the store.
    fn register(&mut self, pessoa: Pessoa) -> (reply: CreatePessoaReply)
        requires
            old(self).wf(),
            pessoa@.valid(),
        ensures
            final(self).wf(),
            (final(self)@, reply@) == old(self)@.register(pessoa@),
    {
        let json = match pessoa.to_json() {
            Some(json) => json,
            None => {
                return CreatePessoaReply { id: None, status: STATUS_INTERNAL_SERVER_ERROR };
            },
        };
        let fresh = set_insert(&mut self.pessoa_by_apelido_exists_set, pessoa.apelido.clone());
        if !fresh {
            proof {
                assert(self@.handles == old(self)@.handles);
            }
            return CreatePessoaReply { id: None, status: STATUS_UNPROCESSABLE_ENTITY };
        }
        let id = pessoa.id.clone();
        map_insert(&mut self.pessoa_by_id_map, pessoa.id.clone(), json, None);
        let ghost record = pessoa@;
        let ghost queued = self.pessoa_queue@;
        self.pessoa_queue.push_back(pessoa);
        self.pessoa_create_count = self.pessoa_create_count.wrapping_add(1);
        self.accepted = Ghost(self.accepted@.push(record));
        proof {
            let before = old(self)@;
            let after = self@;
            let json = pessoa_json(record)->0;
            assert(after.by_id == before.by_id.insert(record.id, json));
            assert(after == before.accept(record, json));
            lemma_accept_wf(before, record, json);
            assert(pessoa_views(self.pessoa_queue@) == pessoa_views(queued).push(record));
            assert(after.queue() == before.queue().push(record));
        }
        CreatePessoaReply { id: Some(id), status: STATUS_CREATED }
    }

    /// Creates a record under the identifier `id`: replies 400 to a request
    /// that breaks a validation rule, 500 where the record has no JSON form,
    /// 422 where the handle was seen before, and else accepts the record and
    /// replies 201 with the identifier. Only an accepted creation changes the
    /// state.
    pub fn create_pessoa_with_id(&mut self, request: CreatePessoaRequest, id: String) -> (reply:
        CreatePessoaReply)
        requires
            old(self).wf(),
        ensures
            final(self).wf(),
            (final(self)@, reply@) == old(self)@.create(request@, id@),
    {
        match Pessoa::with_id(request, id) {
            Some(pessoa) => self.register(pessoa),
            None => CreatePessoaReply { id: None, status: STATUS_BAD_REQUEST },
        }
    }

    /// Creates a record under a freshly minted identifier. What the call does
    /// is what `create_pessoa_with_id` does for that identifier, which has the
    /// canonical shape and comes back in an accepting reply.
    pub fn create_pessoa(&mut self, request: CreatePessoaRequest) -> (reply: CreatePessoaReply)
        requires
            old(self).wf(),
        ensures
            final(self).wf(),
            !request@.valid() ==> final(self)@ == old(self)@ && reply@ == (CreatePessoaReplyView {
                id: None,
                status: STATUS_BAD_REQUEST,
            }),
            request@.valid() ==> exists|id: Seq<char>|
                is_id_text(id) && (final(self)@, reply@) == #[trigger] old(self)@.create(
                    request@,
                    id,
                ),
    {
        match Pessoa::from(request) {
            Some(pessoa) => {
                let ghost id = pessoa@.id;
                let reply = self.register(pessoa);
                proof {
                    assert((self@, reply@) == old(self)@.create(request@, id));
                }
                reply
            },
            None => CreatePessoaReply { id: None, status: STATUS_BAD_REQUEST },
        }
    }

    /// Looks a record up in the cache alone: its canonical JSON on a hit,
    /// `None` on a miss.
    pub fn pessoa_by_id(&self, request: &PessoaByIdRequest) -> (cached: Option<PessoaReply>)
        ensures
            cached is Some <==> self@.by_id.contains_key(request.id@),
            cached matches Some(reply) ==> reply@ == Some(self@.by_id[request.id@]),
    {
        match map_get(&self.pessoa_by_id_map, request.id.as_str()) {
            Some(entry) => Some(PessoaReply { json: Some(entry.0) }),
            None => None,
        }
    }

    /// Answers a lookup by identifier, given what the store answered. A cached
    /// record wins over the store's answer. On a miss, a row from the store is
    /// read back, cached and returned; no row gives an empty reply; a failure
    /// of the store gives `Unavailable`.
    pub fn pessoa_by_id_fetched(
        &mut self,
        request: PessoaByIdRequest,
        fetched: Result<Option<PessoaRow>, StoreError>,
    ) -> (reply: Result<PessoaReply, Status>)
        requires
            old(self).wf(),
        ensures
            final(self).wf(),
            (final(self)@, reply_view(reply)) == old(self)@.by_id_with(
                request.id@,
                row_answer(fetched),
            ),
    {
        if let Some(entry) = map_get(&self.pessoa_by_id_map, request.id.as_str()) {
            return Ok(PessoaReply { json: Some(entry.0) });
        }
        match fetched {
            Err(_) => Err(Status::Unavailable),
            Ok(None) => Ok(PessoaReply { json: None }),
            Ok(Some(row)) => {
                let pessoa = Pessoa::from_row(&row);
                match pessoa.to_json() {
                    None => Err(Status::Internal),
                    Some(json) => {
                        map_insert(&mut self.pessoa_by_id_map, request.id, json.clone(), None);
                        proof {
                            assert(self@.by_id == old(self)@.by_id.insert(request.id@, json@));
                        }
                        Ok(PessoaReply { json: Some(json) })
                    },
                }
            },
        }
    }

    /// Looks a search up in the cache alone: the remembered JSON array if
    /// there is one that still counts at the second `now`, else `None`.
    pub fn pessoa_search(&self, request: &PessoaSearchRequest, now: u64) -> (cached: Option<
        PessoaSearchReply,
    >)
        ensures
            cached is Some <==> lookup(self@.by_search, request.term@, now) is Some,
            cached matches Some(reply) ==> reply@ == lookup(self@.by_search, request.term@, now),
    {
        match map_get(&self.pessoa_search_map, request.term.as_str()) {
            Some(entry) => {
                let fresh = match entry.1 {
                    Some(deadline) => now < deadline,
                    None => true,
                };
                if fresh {
                    Some(PessoaSearchReply { json: Some(entry.0) })
                } else {
                    None
                }
            },
            None => None,
        }
    }

    /// Answers a search at the second `now`, given what the store answered. A
    /// remembered result that still counts wins over the store's answer. On a
    /// miss, the rows are read back and written as a JSON array, which is
    /// remembered under the raw term for `SEARCH_TTL_SECS` seconds; a failure
    /// of the store gives `Unavailable`.
    pub fn pessoa_search_fetched(
        &mut self,
        request: PessoaSearchRequest,
        fetched: Result<Vec<PessoaRow>, StoreError>,
        now: u64,
    ) -> (reply: Result<PessoaSearchReply, Status>)
        requires
            old(self).wf(),
        ensures
            final(self).wf(),
            (final(self)@, search_reply_view(reply)) == old(self)@.search_with(
                request.term@,
                rows_answer(fetched),
                now,
            ),
    {
        if let Some(cached) = self.pessoa_search(&request, now) {
            return Ok(cached);
        }
        match fetched {
            Err(_) => Err(Status::Unavailable),
            Ok(rows) => {
                let pessoas = read_back(&rows);
                match to_json_array(&pessoas) {
                    None => Err(Status::Internal),
                    Some(json) => {
                        let deadline = now.saturating_add(SEARCH_TTL_SECS);
                        map_insert(
                            &mut self.pessoa_search_map,
                            request.term,
                            json.clone(),
                            Some(deadline),
                        );
                        Ok(PessoaSearchReply { json: Some(json) })
                    },
                }
            },
        }
    }

    /// Answers a count with what the store counted. A failure of the store,
    /// or a count below zero, gives `Unavailable`.
    pub fn count_pessoa(counted: Result<i64, StoreError>) -> (reply: Result<
        CountPessoaReply,
        Status,
    >)
        ensures
            reply == count_outcome(counted),
    {
        match counted {
            Ok(amount) => if amount >= 0 {
                Ok(CountPessoaReply { amount: amount as u64 })
            } else {
                Err(Status::Unavailable)
            },
            Err(_) => Err(Status::Unavailable),
        }
    }

    /// How many creations were accepted, counted modulo 2^64.
    pub fn count_success_create_pessoa(&self) -> (reply: CountPessoaReply)
        ensures
            reply.amount == self@.created,
    {
        CountPessoaReply { amount: self.pessoa_create_count }
    }

    /// How many records wait in the ingest queue.
    pub fn pending(&self) -> (n: usize)
        requires
            self.wf(),
        ensures
            n == self@.queue().len(),
    {
        proof {
            assert(pessoa_views(self.pessoa_queue@).len() == self.pessoa_queue@.len());
        }
        self.pessoa_queue.len()
    }

    /// Takes the oldest record out of the ingest queue, or `None` where the
    /// queue is empty. The cache is left as it is.
    pub fn recv(&mut self) -> (next: Option<Pessoa>)
        requires
            old(self).wf(),
        ensures
            final(self).wf(),
            old(self)@.queue().len() == 0 ==> next is None && final(self)@ == old(self)@,
            old(self)@.queue().len() > 0 ==> next is Some && next->0@ == old(self)@.queue()[0]
                && final(self)@ == old(self)@.take(),
    {
        proof {
            assert(pessoa_views(self.pessoa_queue@).len() == self.pessoa_queue@.len());
        }
        match self.pessoa_queue.pop_front() {
            Some(pessoa) => {
                self.taken = Ghost((self.taken@ + 1) as nat);
                proof {
                    let before = old(self)@;
                    assert(pessoa@ == pessoa_views(old(self).pessoa_queue@)[0]);
                    assert(self@ == before.take());
                    assert(pessoa_views(self.pessoa_queue@) == pessoa_views(
                        old(self).pessoa_queue@,
                    ).skip(1));
                    assert(self@.queue() == before.queue().skip(1));
                }
                Some(pessoa)
            },
            None => None,
        }
    }
}

/// Reads a list of rows back as records, in order.
pub fn read_back(rows: &Vec<PessoaRow>) -> (pessoas: Vec<Pessoa>)
    ensures
        pessoa_views(pessoas@) == row_records(row_views(rows@)),
{
    let mut pessoas: Vec<Pessoa> = Vec::new();
    let mut i: usize = 0;
    while i < rows.len()
        invariant
            i <= rows.len(),
            pessoa_views(pessoas@) == row_records(row_views(rows@)).take(i as int),
        decreases rows.len() - i,
    {
        let ghost before = pessoa_views(pessoas@);
        let pessoa = Pessoa::from_row(&rows[i]);
        let ghost record = pessoa@;
        pessoas.push(pessoa);
        proof {
            assert(pessoa_views(pessoas@) == before.push(record));
            assert(row_records(row_views(rows@)).take(i + 1) == before.push(record));
        }
        i = i + 1;
    }
    proof {
        assert(row_records(row_views(rows@)).take(rows.len() as int) == row_records(
            row_views(rows@),
        ));
    }
    pessoas
}

} // verus!
