//! The batch flusher: the decisions of the task that drains the ingest queue
//! into the store.
//!
//! The task waits for the next queued record or for the end of the current
//! window, whichever comes first, and reports which of the two happened. The
//! flusher buffers records and says when a batch is to be inserted. A batch
//! that is handed out has left the buffer, whether its insert succeeds or not.

use crate::env::EnvironmentValues;
use crate::json::pessoa_views;
use crate::pessoa::{Pessoa, PessoaRow, PessoaRowView, PessoaView};
use crate::service::row_views;
use vstd::prelude::*;

verus! {

/// What the task waited for and got.
#[derive(Clone, Debug, PartialEq, Eq)]
pub enum PessoaOrTimeout {
    /// The queue was closed: no record will come any more.
    ReceiverClosed,
    /// The window ended before a record came.
    Timeout,
    /// The next queued record.
    Pessoa(Pessoa),
}

/// The content of a `PessoaOrTimeout`.
pub enum EventView {
    ReceiverClosed,
    Timeout,
    Pessoa(PessoaView),
}

impl View for PessoaOrTimeout {
    type V = EventView;

    open spec fn view(&self) -> EventView {
        match self {
            PessoaOrTimeout::ReceiverClosed => EventView::ReceiverClosed,
            PessoaOrTimeout::Timeout => EventView::Timeout,
            PessoaOrTimeout::Pessoa(pessoa) => EventView::Pessoa(pessoa@),
        }
    }
}

/// What the task is to do next.
#[derive(Clone, Debug, PartialEq, Eq)]
pub enum BatchAction {
    /// Wait for the next record or the end of the window.
    Continue,
    /// Insert these rows in one transaction, then wait again.
    Insert(Vec<PessoaRow>),
    /// End the task.
    Stop,
}

/// The content of a `BatchAction`.
pub enum ActionView {
    Continue,
    Insert(Seq<PessoaRowView>),
    Stop,
}

impl View for BatchAction {
    type V = ActionView;

    open spec fn view(&self) -> ActionView {
        match self {
            BatchAction::Continue => ActionView::Continue,
            BatchAction::Insert(rows) => ActionView::Insert(row_views(rows@)),
            BatchAction::Stop => ActionView::Stop,
        }
    }
}

/// The rows under which `records` are stored, in order.
pub open spec fn rows_of(records: Seq<PessoaView>) -> Seq<PessoaRowView> {
    Seq::new(records.len(), |i: int| records[i].row())
}

/// The state of the flusher.
pub struct BatchView {
    /// The records buffered since the last batch, oldest first.
    pub buffer: Seq<PessoaView>,
    /// The size at which the buffer is flushed.
    pub max: usize,
    /// Length of a window, in seconds.
    pub wait: u64,
    /// The second at which the buffer was last emptied.
    pub since: u64,
}

impl BatchView {
    /// The buffer never stays at its cap: it is empty or below it.
    pub open spec fn wf(self) -> bool {
        self.buffer.len() == 0 || self.buffer.len() < self.max
    }

    /// The second at which the current window ends.
    pub open spec fn deadline(self) -> u64 {
        if self.since + self.wait > u64::MAX {
            u64::MAX
        } else {
            (self.since + self.wait) as u64
        }
    }

    /// The state after the buffer was emptied at the second `now`.
    pub open spec fn emptied(self, now: u64) -> BatchView {
        BatchView { buffer: Seq::empty(), since: now, ..self }
    }

    /// The state and the action after `event` at the second `now`.
    ///
    /// A record joins the buffer; the buffer is flushed once it has reached
    /// its cap, and otherwise the window goes on as it was. The end of the
    /// window flushes whatever is buffered and opens a new window. A closed
    /// queue ends the task; what is buffered then is dropped.
    pub open spec fn step(self, event: EventView, now: u64) -> (BatchView, ActionView) {
        match event {
            EventView::Pessoa(pessoa) => {
                let grown = self.buffer.push(pessoa);
                if grown.len() >= self.max {
                    (self.emptied(now), ActionView::Insert(rows_of(grown)))
                } else {
                    (BatchView { buffer: grown, ..self }, ActionView::Continue)
                }
            },
            EventView::Timeout => if self.buffer.len() > 0 {
                (self.emptied(now), ActionView::Insert(rows_of(self.buffer)))
            } else {
                (self.emptied(now), ActionView::Continue)
            },
            EventView::ReceiverClosed => (self, ActionView::Stop),
        }
    }
}

/// The flusher: the buffer of records to insert, its cap, the length of a
/// window and the second at which the current window opened.
pub struct BatchInsertTask {
    pessoas_to_insert: Vec<Pessoa>,
    batch_max_insert_size: usize,
    batch_max_wait_on_insert_channel: u64,
    window_opened_at: u64,
}

impl View for BatchInsertTask {
    type V = BatchView;

    closed spec fn view(&self) -> BatchView {
        BatchView {
            buffer: pessoa_views(self.pessoas_to_insert@),
            max: self.batch_max_insert_size,
            wait: self.batch_max_wait_on_insert_channel,
            since: self.window_opened_at,
        }
    }
}

/// Empties the buffer and gives the rows to insert for it, in order.
pub fn batch_insert(pessoas_to_insert: &mut Vec<Pessoa>) -> (rows: Vec<PessoaRow>)
    ensures
        final(pessoas_to_insert)@.len() == 0,
        row_views(rows@) == rows_of(pessoa_views(old(pessoas_to_insert)@)),
{
    let mut rows: Vec<PessoaRow> = Vec::new();
    let mut i: usize = 0;
    while i < pessoas_to_insert.len()
        invariant
            i <= pessoas_to_insert.len(),
            *pessoas_to_insert == *old(pessoas_to_insert),
            row_views(rows@) == rows_of(pessoa_views(pessoas_to_insert@)).take(i as int),
        decreases pessoas_to_insert.len() - i,
    {
        let ghost before = row_views(rows@);
        let row = pessoas_to_insert[i].to_row();
        let ghost added = row@;
        rows.push(row);
        proof {
            assert(row_views(rows@) == before.push(added));
            assert(rows_of(pessoa_views(pessoas_to_insert@)).take(i + 1) == before.push(added));
        }
        i = i + 1;
    }
    proof {
        assert(rows_of(pessoa_views(pessoas_to_insert@)).take(pessoas_to_insert.len() as int)
            == rows_of(pessoa_views(pessoas_to_insert@)));
    }
    pessoas_to_insert.clear();
    rows
}

impl BatchInsertTask {
    /// A flusher with an empty buffer whose first window opens at the second
    /// `now`.
    pub fn new(batch_max_insert_size: usize, batch_max_wait_on_insert_channel: u64, now: u64) -> (task:
        BatchInsertTask)
        ensures
            task@.wf(),
            task@ == (BatchView {
                buffer: Seq::empty(),
                max: batch_max_insert_size,
                wait: batch_max_wait_on_insert_channel,
                since: now,
            }),
    {
        let task = BatchInsertTask {
            pessoas_to_insert: Vec::new(),
            batch_max_insert_size,
            batch_max_wait_on_insert_channel,
            window_opened_at: now,
        };
        proof {
            assert(task@.buffer == Seq::<PessoaView>::empty());
        }
        task
    }

    /// A flusher configured from the environment.
    pub fn from(env_values: &EnvironmentValues, now: u64) -> (task: BatchInsertTask)
        ensures
            task@.wf(),
            task@ == (BatchView {
                buffer: Seq::empty(),
                max: env_values.batch_max_insert_size,
                wait: env_values.batch_max_wait_on_insert_channel,
                since: now,
            }),
    {
        BatchInsertTask::new(
            env_values.batch_max_insert_size,
            env_values.batch_max_wait_on_insert_channel,
            now,
        )
    }

    /// The second at which the current window ends: the task waits for the
    /// next record until then.
    pub fn deadline(&self) -> (second: u64)
        ensures
            second == self@.deadline(),
    {
        self.window_opened_at.saturating_add(self.batch_max_wait_on_insert_channel)
    }

    /// How many records are buffered.
    pub fn buffered(&self) -> (n: usize)
        ensures
            n == self@.buffer.len(),
    {
        self.pessoas_to_insert.len()
    }
}

/// One turn of the flusher's loop: takes what the task waited for and got at
/// the second `now`, and says what the task is to do next.
pub fn batch_insert_task(task: &mut BatchInsertTask, event: PessoaOrTimeout, now: u64) -> (action:
    BatchAction)
    requires
        old(task)@.wf(),
    ensures
        final(task)@.wf(),
        (final(task)@, action@) == old(task)@.step(event@, now),
{
    match event {
        PessoaOrTimeout::Pessoa(pessoa) => {
            let ghost before = pessoa_views(task.pessoas_to_insert@);
            let ghost record = pessoa@;
            task.pessoas_to_insert.push(pessoa);
            proof {
                assert(pessoa_views(task.pessoas_to_insert@) == before.push(record));
            }
            if task.pessoas_to_insert.len() >= task.batch_max_insert_size {
                let rows = batch_insert(&mut task.pessoas_to_insert);
                task.window_opened_at = now;
                proof {
                    assert(pessoa_views(task.pessoas_to_insert@) == Seq::<PessoaView>::empty());
                }
                BatchAction::Insert(rows)
            } else {
                BatchAction::Continue
            }
        },
        PessoaOrTimeout::Timeout => {
            if task.pessoas_to_insert.len() > 0 {
                let rows = batch_insert(&mut task.pessoas_to_insert);
                task.window_opened_at = now;
                proof {
                    assert(pessoa_views(task.pessoas_to_insert@) == Seq::<PessoaView>::empty());
                }
                BatchAction::Insert(rows)
            } else {
                task.window_opened_at = now;
                proof {
                    assert(pessoa_views(task.pessoas_to_insert@) == Seq::<PessoaView>::empty());
                }
                BatchAction::Continue
            }
        },
        PessoaOrTimeout::ReceiverClosed => BatchAction::Stop,
    }
}

} // verus!
