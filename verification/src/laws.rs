//! What holds of the service over sequences of operations.
//!
//! The operations of the service are given as values, so that a statement can
//! speak of everything that may happen between two requests.

use crate::cache::lookup;
use crate::flusher::{rows_of, ActionView, BatchView, EventView};
use crate::handlers::{http_created, http_found, http_json, http_listed};
use crate::json::pessoa_json;
use crate::pessoa::{lemma_row_round_trip, CreatePessoaRequestView, PessoaRowView, PessoaView};
use crate::service::{
    lemma_accept_wf, search_deadline, RinhaView, Status, StoreError, SEARCH_TTL_SECS, STATUS_BAD_REQUEST,
    STATUS_CREATED, STATUS_UNPROCESSABLE_ENTITY,
};
use vstd::prelude::*;

verus! {

/// One operation on the service, with everything that decides its outcome.
pub enum Op {
    /// A creation request and the identifier minted for it.
    Create { request: CreatePessoaRequestView, id: Seq<char> },
    /// A lookup by identifier and what the store would answer.
    Get { id: Seq<char>, fetched: Result<Option<PessoaRowView>, StoreError> },
    /// A search, what the store would answer, and the second it happens at.
    Search { term: Seq<char>, rows: Result<Seq<PessoaRowView>, StoreError>, now: u64 },
    /// The flusher takes the oldest queued record, if there is one.
    Take,
}

/// The state after one operation.
pub open spec fn apply(state: RinhaView, op: Op) -> RinhaView {
    match op {
        Op::Create { request, id } => state.create(request, id).0,
        Op::Get { id, fetched } => state.by_id_with(id, fetched).0,
        Op::Search { term, rows, now } => state.search_with(term, rows, now).0,
        Op::Take => if state.queue().len() > 0 {
            state.take()
        } else {
            state
        },
    }
}

/// The state after a sequence of operations, first to last.
pub open spec fn run(state: RinhaView, ops: Seq<Op>) -> RinhaView
    decreases ops.len(),
{
    if ops.len() == 0 {
        state
    } else {
        apply(run(state, ops.drop_last()), ops.last())
    }
}

/// Whether `op` is a creation under the identifier `id`.
pub open spec fn creates_under(op: Op, id: Seq<char>) -> bool {
    op matches Op::Create { id: minted, .. } && minted == id
}

/// Every operation keeps the state well formed.
pub proof fn lemma_apply_wf(state: RinhaView, op: Op)
    requires
        state.wf(),
    ensures
        apply(state, op).wf(),
{
    match op {
        Op::Create { request, id } => {
            let pessoa = request.record(id);
            if request.valid() && pessoa_json(pessoa) is Some && !state.handles.contains(
                pessoa.apelido,
            ) {
                lemma_accept_wf(state, pessoa, pessoa_json(pessoa)->0);
            }
        },
        Op::Get { id, fetched } => {},
        Op::Search { term, rows, now } => {},
        Op::Take => {},
    }
}

/// Every sequence of operations keeps the state well formed.
pub proof fn lemma_run_wf(state: RinhaView, ops: Seq<Op>)
    requires
        state.wf(),
    ensures
        run(state, ops).wf(),
    decreases ops.len(),
{
    if ops.len() > 0 {
        lemma_run_wf(state, ops.drop_last());
        lemma_apply_wf(run(state, ops.drop_last()), ops.last());
    }
}

/// No operation forgets a handle, and none reorders or drops what was
/// accepted.
pub proof fn lemma_run_keeps_handles(state: RinhaView, ops: Seq<Op>)
    ensures
        state.handles.subset_of(run(state, ops).handles),
        state.accepted.is_prefix_of(run(state, ops).accepted),
    decreases ops.len(),
{
    if ops.len() > 0 {
        lemma_run_keeps_handles(state, ops.drop_last());
    }
}

/// Malformed input changes nothing: a request that breaks a validation rule
/// is answered 400 and leaves cache and queue as they were.
pub proof fn lemma_malformed_changes_nothing(
    state: RinhaView,
    request: CreatePessoaRequestView,
    id: Seq<char>,
)
    requires
        !request.valid(),
    ensures
        state.create(request, id).0 == state,
        state.create(request, id).1.status == STATUS_BAD_REQUEST,
        state.create(request, id).1.id is None,
{
}

/// A handle is created at most once. After a creation with a handle was
/// accepted, and whatever happened since, no creation with that handle is
/// accepted: it changes nothing, and a valid one whose record has a JSON form
/// is answered 422.
pub proof fn lemma_handle_created_once(
    state: RinhaView,
    first: CreatePessoaRequestView,
    first_id: Seq<char>,
    between: Seq<Op>,
    second: CreatePessoaRequestView,
    second_id: Seq<char>,
)
    requires
        state.create(first, first_id).1.status == STATUS_CREATED,
        second.apelido == first.apelido,
    ensures
        ({
            let later = run(state.create(first, first_id).0, between);
            let (after, reply) = later.create(second, second_id);
            &&& after == later
            &&& reply.status != STATUS_CREATED
            &&& reply.id is None
            &&& second.valid() && pessoa_json(second.record(second_id)) is Some ==> reply.status
                == STATUS_UNPROCESSABLE_ENTITY
        }),
{
    let accepted = state.create(first, first_id).0;
    assert(accepted.handles.contains(first.apelido));
    lemma_run_keeps_handles(accepted, between);
}

/// In a well-formed state no two accepted records share a handle, and the
/// handles seen are exactly those of the accepted records.
pub proof fn lemma_one_record_per_handle(state: RinhaView, i: int, j: int)
    requires
        state.wf(),
        0 <= i < state.accepted.len(),
        0 <= j < state.accepted.len(),
        state.accepted[i].apelido == state.accepted[j].apelido,
    ensures
        i == j,
        state.handles.contains(state.accepted[i].apelido),
{
    if i < j {
        assert(state.accepted[i].apelido != state.accepted[j].apelido);
    } else if j < i {
        assert(state.accepted[j].apelido != state.accepted[i].apelido);
    }
}

/// A sequence of operations of which none creates under `id` leaves what the
/// cache holds for `id` as it was.
pub proof fn lemma_run_keeps_record(state: RinhaView, ops: Seq<Op>, id: Seq<char>)
    requires
        state.by_id.contains_key(id),
        forall|k: int| 0 <= k < ops.len() ==> !creates_under(#[trigger] ops[k], id),
    ensures
        run(state, ops).by_id.contains_key(id),
        run(state, ops).by_id[id] == state.by_id[id],
    decreases ops.len(),
{
    if ops.len() > 0 {
        let init = ops.drop_last();
        assert forall|k: int| 0 <= k < init.len() implies !creates_under(#[trigger] init[k], id) by {
            assert(init[k] == ops[k]);
        }
        lemma_run_keeps_record(state, init, id);
        assert(!creates_under(ops[ops.len() - 1], id));
    }
}

/// A created record is readable at once. After a creation was accepted under
/// `id`, a lookup of `id` is answered 200 with the canonical JSON of the
/// created record, whatever the store would say, and so it stays through any
/// operations of which none creates under the same identifier.
pub proof fn lemma_created_is_readable(
    state: RinhaView,
    request: CreatePessoaRequestView,
    id: Seq<char>,
    between: Seq<Op>,
    fetched: Result<Option<PessoaRowView>, StoreError>,
)
    requires
        state.create(request, id).1.status == STATUS_CREATED,
        forall|k: int| 0 <= k < between.len() ==> !creates_under(#[trigger] between[k], id),
    ensures
        state.create(request, id).1.id == Some(id),
        pessoa_json(request.record(id)) is Some,
        ({
            let later = run(state.create(request, id).0, between);
            let json = pessoa_json(request.record(id))->0;
            &&& later.by_id_with(id, fetched) == (later, Ok::<Option<Seq<char>>, Status>(Some(json)))
            &&& http_found(later.by_id_with(id, fetched).1) == http_json(json)
        }),
{
    let accepted = state.create(request, id).0;
    lemma_run_keeps_record(accepted, between, id);
}

/// Of two creations with the same handle that race for an unseen handle,
/// the one that comes first is accepted and the other is answered 422 and
/// changes nothing; the identifier in the accepting reply leads to the
/// winner's record. Both requests are valid and their records have a JSON
/// form.
pub proof fn lemma_same_handle_race(
    state: RinhaView,
    winner: CreatePessoaRequestView,
    winner_id: Seq<char>,
    loser: CreatePessoaRequestView,
    loser_id: Seq<char>,
)
    requires
        winner.apelido == loser.apelido,
        !state.handles.contains(winner.apelido),
        winner.valid(),
        loser.valid(),
        pessoa_json(winner.record(winner_id)) is Some,
        pessoa_json(loser.record(loser_id)) is Some,
    ensures
        ({
            let (accepted, won) = state.create(winner, winner_id);
            let (after, lost) = accepted.create(loser, loser_id);
            &&& won.status == STATUS_CREATED
            &&& won.id == Some(winner_id)
            &&& lost.status == STATUS_UNPROCESSABLE_ENTITY
            &&& lost.id is None
            &&& after == accepted
            &&& after.by_id[winner_id] == pessoa_json(winner.record(winner_id))->0
            &&& http_created(lost).location is None
        }),
{
}

/// Reading is idempotent. A lookup that was answered with a record is
/// answered with the same record again, whatever the store would say then,
/// and whatever happened in between, as long as nothing was created under
/// the same identifier.
pub proof fn lemma_get_is_idempotent(
    state: RinhaView,
    id: Seq<char>,
    first: Result<Option<PessoaRowView>, StoreError>,
    between: Seq<Op>,
    second: Result<Option<PessoaRowView>, StoreError>,
)
    requires
        state.by_id_with(id, first).1 matches Ok(Some(_)),
        forall|k: int| 0 <= k < between.len() ==> !creates_under(#[trigger] between[k], id),
    ensures
        ({
            let (read, reply) = state.by_id_with(id, first);
            let later = run(read, between);
            later.by_id_with(id, second) == (later, reply)
        }),
{
    let read = state.by_id_with(id, first).0;
    assert(read.by_id.contains_key(id));
    lemma_run_keeps_record(read, between, id);
}

/// A lookup that hits the cache changes nothing.
pub proof fn lemma_hit_changes_nothing(
    state: RinhaView,
    id: Seq<char>,
    fetched: Result<Option<PessoaRowView>, StoreError>,
)
    requires
        state.by_id.contains_key(id),
    ensures
        state.by_id_with(id, fetched) == (state, Ok::<Option<Seq<char>>, Status>(
            Some(state.by_id[id]),
        )),
{
}

/// A search result is remembered for `SEARCH_TTL_SECS` seconds, which is at
/// most a minute. A search answered from the store at the second `now` is
/// answered with the same body at every second before the deadline, whatever
/// the store would say then, and is no longer served from the deadline on.
pub proof fn lemma_search_is_remembered(
    state: RinhaView,
    term: Seq<char>,
    fetched: Result<Seq<PessoaRowView>, StoreError>,
    now: u64,
    later: u64,
    again: Result<Seq<PessoaRowView>, StoreError>,
)
    requires
        lookup(state.by_search, term, now) is None,
        state.search_with(term, fetched, now).1 matches Ok(Some(_)),
    ensures
        SEARCH_TTL_SECS <= 60,
        search_deadline(now) <= now + SEARCH_TTL_SECS,
        ({
            let (remembered, reply) = state.search_with(term, fetched, now);
            &&& now <= later < search_deadline(now) ==> remembered.search_with(term, again, later)
                == (remembered, reply)
            &&& later >= search_deadline(now) ==> lookup(remembered.by_search, term, later) is None
            &&& http_listed(reply) == http_json(reply->Ok_0->0)
        }),
{
}

/// Searching touches neither the handles, the records by identifier nor the
/// queue; looking a record up touches neither the handles, the remembered
/// searches nor the queue.
pub proof fn lemma_reads_leave_the_rest(state: RinhaView, op: Op)
    requires
        op is Get || op is Search,
    ensures
        apply(state, op).handles == state.handles,
        apply(state, op).accepted == state.accepted,
        apply(state, op).taken == state.taken,
        apply(state, op).created == state.created,
        op is Search ==> apply(state, op).by_id == state.by_id,
        op is Get ==> apply(state, op).by_search == state.by_search,
{
}

/// Every handle seen belongs to an accepted record, which is still queued or
/// was taken by the flusher on its way to the store.
pub proof fn lemma_seen_handle_has_a_record(state: RinhaView, handle: Seq<char>)
    requires
        state.wf(),
        state.handles.contains(handle),
    ensures
        exists|i: int|
            0 <= i < state.accepted.len() && #[trigger] state.accepted[i].apelido == handle && (i
                >= state.taken ==> state.queue()[i - state.taken] == state.accepted[i]),
{
    let i = choose|i: int|
        0 <= i < state.accepted.len() && #[trigger] state.accepted[i].apelido == handle;
    assert(state.accepted[i].apelido == handle);
}

/// What the flusher writes reads back as it was accepted. The row of every
/// accepted record meets what the table asks of its columns; and where the
/// record has no tags column or at least one tag, cutting the column at
/// every space gives the record back.
pub proof fn lemma_flushed_row_reads_back(state: RinhaView, k: int)
    requires
        state.wf(),
        0 <= k < state.accepted.len(),
    ensures
        state.accepted[k].row().fits_schema(),
        state.accepted[k].row().id == state.accepted[k].id,
        (state.accepted[k].stack matches Some(items) ==> items.len() >= 1)
            ==> state.accepted[k].row().record() == state.accepted[k],
{
    let pessoa = state.accepted[k];
    assert(state.handles.contains(pessoa.apelido));
    assert(pessoa.valid());
    if pessoa.stack matches Some(items) ==> items.len() >= 1 {
        lemma_row_round_trip(pessoa);
    }
}

/// Every queued record is readable by identifier, its handle counts as seen,
/// and it satisfies the validation rules.
pub proof fn lemma_queued_is_cached(state: RinhaView, k: int)
    requires
        state.wf(),
        0 <= k < state.queue().len(),
    ensures
        state.by_id.contains_key(state.queue()[k].id),
        state.handles.contains(state.queue()[k].apelido),
        state.queue()[k].valid(),
{
    let i = state.taken + k;
    assert(state.queue()[k] == state.accepted[i]);
    assert(state.handles.contains(state.accepted[i].apelido));
}

/// What the flusher was told: an event and the second it happened at.
pub struct Told {
    pub event: EventView,
    pub now: u64,
}

/// The state of the flusher after a sequence of events, first to last.
pub open spec fn flusher_after(batch: BatchView, told: Seq<Told>) -> BatchView
    decreases told.len(),
{
    if told.len() == 0 {
        batch
    } else {
        flusher_after(batch, told.drop_last()).step(told.last().event, told.last().now).0
    }
}

/// The rows that the flusher handed out over a sequence of events, in the
/// order in which it handed them out.
pub open spec fn handed_out(batch: BatchView, told: Seq<Told>) -> Seq<PessoaRowView>
    decreases told.len(),
{
    if told.len() == 0 {
        Seq::empty()
    } else {
        let before = flusher_after(batch, told.drop_last());
        match before.step(told.last().event, told.last().now).1 {
            ActionView::Insert(rows) => handed_out(batch, told.drop_last()) + rows,
            _ => handed_out(batch, told.drop_last()),
        }
    }
}

/// The records that a sequence of events brought, in order.
pub open spec fn brought(told: Seq<Told>) -> Seq<PessoaView>
    decreases told.len(),
{
    if told.len() == 0 {
        Seq::empty()
    } else {
        match told.last().event {
            EventView::Pessoa(pessoa) => brought(told.drop_last()).push(pessoa),
            _ => brought(told.drop_last()),
        }
    }
}

/// The flusher neither loses, repeats nor reorders a record. Whatever the
/// events, what it has handed out followed by what it still buffers is what
/// it buffered at first followed by what the events brought, in that order;
/// and the buffer stays below its cap.
pub proof fn lemma_flusher_keeps_every_record(batch: BatchView, told: Seq<Told>)
    requires
        batch.wf(),
    ensures
        flusher_after(batch, told).wf(),
        flusher_after(batch, told).max == batch.max,
        flusher_after(batch, told).wait == batch.wait,
        handed_out(batch, told) + rows_of(flusher_after(batch, told).buffer) == rows_of(
            batch.buffer + brought(told),
        ),
    decreases told.len(),
{
    if told.len() == 0 {
        assert(batch.buffer + brought(told) == batch.buffer);
        assert(handed_out(batch, told) + rows_of(batch.buffer) == rows_of(batch.buffer));
    } else {
        let init = told.drop_last();
        lemma_flusher_keeps_every_record(batch, init);
        let before = flusher_after(batch, init);
        let out = handed_out(batch, init);
        let all = batch.buffer + brought(init);
        assert(out + rows_of(before.buffer) == rows_of(all));
        match told.last().event {
            EventView::Pessoa(pessoa) => {
                let grown = before.buffer.push(pessoa);
                assert(batch.buffer + brought(told) == all.push(pessoa));
                assert(rows_of(grown) == rows_of(before.buffer).push(pessoa.row()));
                assert(rows_of(all.push(pessoa)) == rows_of(all).push(pessoa.row()));
                assert(out + rows_of(grown) == rows_of(all.push(pessoa)));
                assert(rows_of(Seq::<PessoaView>::empty()) == Seq::<PessoaRowView>::empty());
                assert(out + rows_of(grown) + Seq::<PessoaRowView>::empty() == out + rows_of(
                    grown,
                ));
            },
            EventView::Timeout => {
                assert(batch.buffer + brought(told) == all);
                assert(rows_of(Seq::<PessoaView>::empty()) == Seq::<PessoaRowView>::empty());
                assert(out + rows_of(before.buffer) + Seq::<PessoaRowView>::empty() == out
                    + rows_of(before.buffer));
                assert(out + Seq::<PessoaRowView>::empty() == out);
            },
            EventView::ReceiverClosed => {
                assert(batch.buffer + brought(told) == all);
            },
        }
    }
}

/// A record that does not fill the buffer leaves the window as it is: the
/// deadline moves only when the buffer is emptied.
pub proof fn lemma_window_is_kept(batch: BatchView, pessoa: PessoaView, now: u64)
    requires
        batch.buffer.len() + 1 < batch.max,
    ensures
        batch.step(EventView::Pessoa(pessoa), now).1 is Continue,
        batch.step(EventView::Pessoa(pessoa), now).0.deadline() == batch.deadline(),
        batch.step(EventView::Pessoa(pessoa), now).0.buffer == batch.buffer.push(pessoa),
{
}

} // verus!
