//! What the service asks of the store, and how it behaves while the store
//! cannot be reached.
//!
//! The statements are run elsewhere; this module fixes their text, the values
//! bound to them and the decisions around them.

use crate::service::SEARCH_LIMIT;
use crate::text::lowercased;
use vstd::prelude::*;
use vstd::string::*;

verus! {

/// Reads the row with the identifier bound to `$1`.
pub const SELECT_BY_ID_SQL: &'static str = "SELECT id, apelido, nome, nascimento, stack FROM pessoas WHERE id = $1;";

/// Reads the rows whose search column matches the pattern bound to `$1`, at
/// most as many as the number bound to `$2`.
pub const SEARCH_SQL: &'static str = "SELECT id, apelido, nome, nascimento, stack FROM pessoas p WHERE p.busca_trgm LIKE $1 LIMIT $2;";

/// Counts the rows.
pub const COUNT_SQL: &'static str = "SELECT COUNT(id) FROM pessoas;";

/// Start of the insert of a batch; the rows' values follow it.
pub const INSERT_SQL_HEAD: &'static str = "INSERT INTO pessoas (id, nome, apelido, nascimento, stack) ";

/// End of the insert of a batch: a row that meets a taken identifier or
/// handle is dropped without failing the others.
pub const INSERT_SQL_TAIL: &'static str = " ON CONFLICT DO NOTHING;";

/// Seconds waited after the first failed attempt to reach the store.
pub const FIRST_WAIT_SECS: u64 = 1;

/// Longest wait, in seconds, after which another attempt is still made.
pub const LAST_WAIT_SECS: u64 = 10;

/// Seconds between two probes of the store's liveness.
pub const PROBE_INTERVAL_SECS: u64 = 1;

/// A question to the store.
#[derive(Clone, Debug, PartialEq, Eq)]
pub enum StoreQuery {
    /// The row with this identifier.
    ById { id: String },
    /// At most `limit` rows whose search column matches `pattern`.
    Search { pattern: String, limit: u32 },
}

/// The pattern that matches every text in which `lowered` occurs.
pub open spec fn like_pattern(lowered: Seq<char>) -> Seq<char> {
    seq!['%'] + lowered + seq!['%']
}

/// Wraps an already lower-cased term in the wildcards of a substring match.
pub fn wrap_pattern(lowered: &str) -> (pattern: String)
    ensures
        pattern@ == like_pattern(lowered@),
{
    let mut pattern = String::new();
    pattern.push('%');
    pattern.append(lowered);
    pattern.push('%');
    pattern
}

/// The pattern bound to a search for `term`: the term in lower case, since the
/// search column is lower-cased, between wildcards.
pub fn search_pattern(term: &str) -> (pattern: String)
    ensures
        pattern@ == like_pattern(lowercased(term@)),
{
    let lowered = term.to_lowercase();
    wrap_pattern(lowered.as_str())
}

/// The question that a search for `term` puts to the store.
pub fn search_query(term: &str) -> (query: StoreQuery)
    ensures
        query matches StoreQuery::Search { pattern, limit } && pattern@ == like_pattern(
            lowercased(term@),
        ) && limit == SEARCH_LIMIT,
{
    StoreQuery::Search { pattern: search_pattern(term), limit: SEARCH_LIMIT }
}

/// Whether the service reports itself as serving.
#[derive(Clone, Copy, Debug, PartialEq, Eq, Structural)]
pub enum Health {
    Serving,
    NotServing,
}

/// The health to report after a probe: serving exactly when a connection to
/// the store could be acquired.
pub fn health_after_probe(acquired: bool) -> (health: Health)
    ensures
        health == if acquired {
            Health::Serving
        } else {
            Health::NotServing
        },
{
    if acquired {
        Health::Serving
    } else {
        Health::NotServing
    }
}

/// The waits between attempts to reach the store at start-up. Each failed
/// attempt doubles the wait; once the wait has passed `LAST_WAIT_SECS` the
/// next failure is final.
#[derive(Clone, Copy, Debug)]
pub struct Backoff {
    wait: u64,
}

/// The waits that are still granted when the next one lasts `wait` seconds.
pub open spec fn waits_from(wait: nat) -> Seq<nat>
    decreases 2 * LAST_WAIT_SECS + 1 - wait,
{
    if 0 < wait <= LAST_WAIT_SECS {
        seq![wait] + waits_from(2 * wait)
    } else {
        Seq::empty()
    }
}

impl Backoff {
    /// Seconds to wait after the next failure.
    pub closed spec fn wait(&self) -> nat {
        self.wait as nat
    }

    /// The wait is one that doubling from the first one reaches.
    pub closed spec fn wf(&self) -> bool {
        0 < self.wait <= 2 * LAST_WAIT_SECS
    }

    /// The state before the first attempt.
    pub fn new() -> (backoff: Backoff)
        ensures
            backoff.wf(),
            backoff.wait() == FIRST_WAIT_SECS,
    {
        Backoff { wait: FIRST_WAIT_SECS }
    }

    /// Takes note of a failed attempt. Returns the seconds to wait before the
    /// next attempt, or `None` where the failure is final.
    pub fn failed(&mut self) -> (retry_in: Option<u64>)
        requires
            old(self).wf(),
        ensures
            final(self).wf(),
            old(self).wait() <= LAST_WAIT_SECS ==> retry_in == Some(old(self).wait() as u64)
                && final(self).wait() == 2 * old(self).wait(),
            old(self).wait() > LAST_WAIT_SECS ==> retry_in is None && final(self).wait() == old(
                self,
            ).wait(),
    {
        if self.wait > LAST_WAIT_SECS {
            None
        } else {
            let wait = self.wait;
            self.wait = wait * 2;
            Some(wait)
        }
    }
}

/// From the first attempt on, four waits are granted, of 1, 2, 4 and 8
/// seconds: 15 seconds in all before the fifth failure is final.
pub proof fn lemma_waits_from_start()
    ensures
        waits_from(FIRST_WAIT_SECS as nat) == seq![1nat, 2nat, 4nat, 8nat],
{
    reveal_with_fuel(waits_from, 6);
    assert(waits_from(16) == Seq::<nat>::empty());
    assert(waits_from(8) == seq![8nat]);
    assert(waits_from(4) == seq![4nat, 8nat]);
    assert(waits_from(2) == seq![2nat, 4nat, 8nat]);
    assert(waits_from(1) == seq![1nat, 2nat, 4nat, 8nat]);
}

} // verus!
