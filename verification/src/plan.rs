//! How the stores talk to SQLite.
//!
//! Each operation is a plan: a verified function from the plan's state and
//! SQLite's last reply to the plan's next state and next request (which SQL
//! to run, which prepared statement to use, what to bind where, what to
//! read), or to the operation's result. A plan's `advance` is pinned
//! exactly by its contract, so what each step asks of SQLite, and what each
//! reply leads to, is stated there. The drivers here carry out the requests
//! a plan makes and hand back SQLite's replies.
//!
//! What is not stated: the connection and its statements are opaque to
//! Verus and change only through shared references, so no contract can
//! record which requests reached SQLite (state changed through `&` cannot
//! be tracked by value, and this crate keeps no tracked ghost state), and
//! the wrappers in `db` say nothing of what SQLite answers. The drivers'
//! contracts therefore say only that a result is one the plan can give for
//! some sequence of replies (`can_yield`). As `answers` lets any reply of
//! the right shape answer a request whatever the request carries, that
//! holds as well of the same plan run with other arguments, or of a result
//! made without asking SQLite at all. That each request a plan makes is
//! the one handed to SQLite shows in the code of `perform`, not in a
//! contract.
//!
//! What each plan is for is stated in `laws`, over the model of SQLite in
//! `model`: where SQLite answers as a file does, each law gives the plan's
//! result in terms of its arguments and the file, and what the file holds
//! afterwards.
use vstd::prelude::*;

use crate::db::{self, SqliteError, Step};

verus! {

/// The prepared statements that the stores use.
#[derive(Clone, Copy, Debug, PartialEq, Eq, Structural)]
pub enum Query {
    /// Reads the schema stamp.
    UserVersion,
    /// Counts the rows of a key in a key-value file.
    KvContains,
    /// Reads the value of a key.
    KvGet,
    /// Inserts or updates an entry.
    KvInsert,
    /// Lists the entries from a key on, in key order.
    KvPrefix,
    /// Reads the element at an index of a log file.
    LogGet,
    /// Appends an element and returns its index.
    LogInsert,
    /// Lists the elements in ULID order.
    LogIter,
}

pub const TRUSTED_SCHEMA_SQL: &'static str = "PRAGMA trusted_schema = 0;";

pub const FOREIGN_KEYS_SQL: &'static str = "PRAGMA foreign_keys = 1;";

pub const USER_VERSION_SQL: &'static str = "PRAGMA user_version";

pub const KV_CREATE_TABLE_SQL: &'static str =
    "CREATE TABLE IF NOT EXISTS sql_hummus_0_kv (key TEXT PRIMARY KEY NOT NULL, value TEXT) WITHOUT ROWID;";

pub const KV_STAMP_SQL: &'static str = "PRAGMA user_version = 1783402338";

pub const KV_CONTAINS_SQL: &'static str = "SELECT count() FROM sql_hummus_0_kv WHERE key = ?";

pub const KV_GET_SQL: &'static str = "SELECT value FROM sql_hummus_0_kv WHERE key = ?";

pub const KV_INSERT_SQL: &'static str =
    "INSERT INTO sql_hummus_0_kv (key, value) VALUES (?, ?) ON CONFLICT(key) DO UPDATE SET value = excluded.value";

pub const KV_PREFIX_SQL: &'static str =
    "SELECT key, value FROM sql_hummus_0_kv WHERE key >= ? ORDER BY key";

pub const KV_CLEAR_SQL: &'static str = "DELETE FROM sql_hummus_0_kv";

pub const BEGIN_SQL: &'static str = "BEGIN IMMEDIATE";

pub const COMMIT_SQL: &'static str = "COMMIT";

pub const ROLLBACK_SQL: &'static str = "ROLLBACK TRANSACTION";

pub const LOG_CREATE_TABLE_SQL: &'static str =
    "CREATE TABLE IF NOT EXISTS sql_hummus_0_log (idx INTEGER PRIMARY KEY NOT NULL, ulid TEXT NOT NULL UNIQUE, value TEXT)";

pub const LOG_STAMP_SQL: &'static str = "PRAGMA user_version = 756530437";

pub const LOG_GET_SQL: &'static str = "SELECT idx, ulid, value from sql_hummus_0_log WHERE idx = ?";

pub const LOG_INSERT_SQL: &'static str =
    "INSERT INTO sql_hummus_0_log (ulid, value) VALUES (?, ?) RETURNING idx";

pub const LOG_ITER_SQL: &'static str =
    "SELECT idx, ulid, value FROM sql_hummus_0_log ORDER BY ulid";

pub const LOG_CLEAR_SQL: &'static str = "DELETE FROM sql_hummus_0_log";

/// The SQL that a prepared statement runs.
pub open spec fn query_sql(q: Query) -> &'static str {
    match q {
        Query::UserVersion => USER_VERSION_SQL,
        Query::KvContains => KV_CONTAINS_SQL,
        Query::KvGet => KV_GET_SQL,
        Query::KvInsert => KV_INSERT_SQL,
        Query::KvPrefix => KV_PREFIX_SQL,
        Query::LogGet => LOG_GET_SQL,
        Query::LogInsert => LOG_INSERT_SQL,
        Query::LogIter => LOG_ITER_SQL,
    }
}

/// The SQL that a prepared statement runs.
pub fn sql_of(q: Query) -> (s: &'static str)
    ensures
        s == query_sql(q),
{
    match q {
        Query::UserVersion => USER_VERSION_SQL,
        Query::KvContains => KV_CONTAINS_SQL,
        Query::KvGet => KV_GET_SQL,
        Query::KvInsert => KV_INSERT_SQL,
        Query::KvPrefix => KV_PREFIX_SQL,
        Query::LogGet => LOG_GET_SQL,
        Query::LogInsert => LOG_INSERT_SQL,
        Query::LogIter => LOG_ITER_SQL,
    }
}

/// What a plan asks of SQLite next.
pub enum Request<'a> {
    /// Run a statement, reading no rows.
    Execute(&'static str),
    /// Compile the statement of a query and keep it under its handle.
    Prepare(Query),
    /// Finalize the statement of a query.
    Drop(Query),
    /// Reset the statement of a query and make it the one in use.
    Borrow(Query),
    /// Bind a text to a parameter of the statement in use (the first
    /// parameter is 1).
    BindText(usize, &'a str),
    /// Bind an integer to a parameter of the statement in use.
    BindInt(usize, i64),
    /// Evaluate the statement in use one step.
    Step,
    /// Read an integer from a column of the current row (the first column
    /// is 0).
    ReadInt(usize),
    /// Read a text from a column of the current row.
    ReadText(usize),
}

/// What SQLite answered.
pub enum Reply {
    /// The request was carried out.
    Accepted,
    /// What a step reported.
    Stepped(Step),
    /// The integer read.
    Int(i64),
    /// The text read.
    Text(String),
    /// SQLite failed.
    Failed(SqliteError),
}

/// `reply` is a possible answer to `request`: a failure, or a reply of the
/// shape the request calls for. What the request carries (its SQL, its
/// parameters) plays no part: SQLite's answers are not modelled.
pub open spec fn answers(request: Request, reply: Reply) -> bool {
    match reply {
        Reply::Failed(_) => true,
        Reply::Accepted => match request {
            Request::Execute(_) | Request::Prepare(_) | Request::Drop(_) | Request::Borrow(_)
            | Request::BindText(_, _) | Request::BindInt(_, _) => true,
            _ => false,
        },
        Reply::Stepped(_) => request is Step,
        Reply::Int(_) => request is ReadInt,
        Reply::Text(_) => request is ReadText,
    }
}

/// A plan's next move: a request, with the state to resume in once SQLite
/// has replied, or the operation's result.
pub enum Move<'a, S, R> {
    Ask(S, Request<'a>),
    Finish(R),
}

/// An operation as a plan over SQLite replies.
pub trait Plan<'a>: Sized {
    type State;

    type Output;

    /// A measure that every request lowers, so that the plan ends.
    spec fn rank(&self, s: Self::State) -> nat;

    /// `reply` can come in state `s`: it answers the request made on
    /// entering `s`.
    spec fn expects(&self, s: Self::State, reply: Reply) -> bool;

    /// What holds of every result the plan can give.
    spec fn sound(&self, out: Self::Output) -> bool;

    /// The state to start in.
    spec fn initial(&self) -> Self::State;

    /// In state `s`, a statement is in use unless the reply that came was a
    /// failure: the request that led to `s` made one the statement in use,
    /// or came with one in use.
    spec fn holds_statement(&self, s: Self::State) -> bool;

    /// The plan gives `out` only while a statement is in use.
    spec fn needs_statement(&self, out: Self::Output) -> bool;

    /// The move in state `s` on `reply`: the plan itself.
    spec fn next(&self, s: Self::State, reply: Reply) -> Move<'a, Self::State, Self::Output>;

    /// The state to start in; the first reply handed in is `Accepted`.
    fn start(&self) -> (s: Self::State)
        ensures
            s == self.initial(),
            self.expects(s, Reply::Accepted),
            !self.holds_statement(s),
    ;

    /// The next move, given the state and SQLite's reply.
    fn advance(&self, s: Self::State, reply: Reply) -> (m: Move<'a, Self::State, Self::Output>)
        requires
            self.expects(s, reply),
        ensures
            m == self.next(s, reply),
            match m {
                Move::Ask(next, request) => self.rank(next) < self.rank(s) && (forall|r: Reply|
                    answers(request, r) ==> #[trigger] self.expects(next, r)) && (self.holds_statement(
                    next,
                ) ==> request is Borrow || (self.holds_statement(s) && !(reply is Failed))),
                Move::Finish(out) => self.sound(out) && (self.needs_statement(out) ==> self.holds_statement(s)
                    && !(reply is Failed)),
            },
    ;
}

/// The prepared statements of a store, each with the query it runs.
pub struct Prepared {
    slots: Vec<(Query, sql_peas::StatementHandle)>,
}

impl Prepared {
    /// The queries prepared, in order.
    pub closed spec fn queries(&self) -> Seq<Query> {
        self.slots@.map_values(|s: (Query, sql_peas::StatementHandle)| s.0)
    }

    /// No statements yet.
    pub fn new() -> (r: Prepared)
        ensures
            r.queries() == Seq::<Query>::empty(),
    {
        Prepared { slots: Vec::new() }
    }

    /// Keeps `handle` as the statement of `q`.
    fn add(&mut self, q: Query, handle: sql_peas::StatementHandle)
        ensures
            final(self).queries() == old(self).queries().push(q),
    {
        self.slots.push((q, handle));
        assert(self.queries() =~= old(self).queries().push(q));
    }

    /// The handle of the statement of `q`, the latest one kept.
    fn find(&self, q: Query) -> (r: Option<sql_peas::StatementHandle>)
        ensures
            r is Some <==> self.queries().contains(q),
    {
        let mut i = self.slots.len();
        while i > 0
            invariant
                i <= self.slots.len(),
                forall|j: int| i <= j < self.slots.len() ==> self.slots@[j].0 != q,
            decreases i,
        {
            i = i - 1;
            if self.slots[i].0 == q {
                assert(self.queries()[i as int] == q);
                return Some(self.slots[i].1);
            }
        }
        assert forall|j: int| 0 <= j < self.queries().len() implies self.queries()[j] != q by {
            assert(self.queries()[j] == self.slots@[j].0);
        }
        None
    }

    /// Forgets the statements of `q`.
    fn remove(&mut self, q: Query) {
        let mut kept: Vec<(Query, sql_peas::StatementHandle)> = Vec::new();
        let mut i: usize = 0;
        while i < self.slots.len()
            decreases self.slots.len() - i,
        {
            if self.slots[i].0 != q {
                kept.push(self.slots[i]);
            }
            i = i + 1;
        }
        self.slots = kept;
    }
}

fn reply_of(r: Result<(), SqliteError>) -> (reply: Reply)
    ensures
        reply is Accepted || reply is Failed,
{
    match r {
        Ok(()) => Reply::Accepted,
        Err(e) => Reply::Failed(e),
    }
}

/// The failure reported for a request that needs a statement when none is
/// in use, or a query that was never prepared; the plans never make one.
fn unavailable() -> (reply: Reply)
    ensures
        reply is Failed,
{
    Reply::Failed(SqliteError { code: None, message: None })
}

/// Carries out a request that needs no new statement to be compiled or
/// finalized, handing SQLite what the request carries; the contract states
/// only that the reply has the request's shape.
fn perform<'c, 'a>(
    conn: &'c sql_peas::Connection,
    prepared: &Prepared,
    current: &mut Option<&'c sql_peas::Statement>,
    request: Request<'a>,
) -> (reply: Reply)
    ensures
        answers(request, reply),
        *old(current) is Some ==> *final(current) is Some,
        request is Borrow && !(reply is Failed) ==> *final(current) is Some,
{
    match request {
        Request::Execute(sql) => reply_of(db::execute(conn, sql)),
        Request::Borrow(q) => match prepared.find(q) {
            Some(handle) => match db::borrow_statement(conn, handle) {
                Ok(stmt) => {
                    *current = Some(stmt);
                    Reply::Accepted
                },
                Err(e) => Reply::Failed(e),
            },
            None => unavailable(),
        },
        Request::BindText(index, text) => match *current {
            Some(stmt) => reply_of(db::bind_text(stmt, index, text)),
            None => unavailable(),
        },
        Request::BindInt(index, value) => match *current {
            Some(stmt) => reply_of(db::bind_int(stmt, index, value)),
            None => unavailable(),
        },
        Request::Step => match *current {
            Some(stmt) => match db::step(stmt) {
                Ok(step) => Reply::Stepped(step),
                Err(e) => Reply::Failed(e),
            },
            None => unavailable(),
        },
        Request::ReadInt(index) => match *current {
            Some(stmt) => match db::read_int(stmt, index) {
                Ok(v) => Reply::Int(v),
                Err(e) => Reply::Failed(e),
            },
            None => unavailable(),
        },
        Request::ReadText(index) => match *current {
            Some(stmt) => match db::read_text(stmt, index) {
                Ok(v) => Reply::Text(v),
                Err(e) => Reply::Failed(e),
            },
            None => unavailable(),
        },
        Request::Prepare(_) | Request::Drop(_) => unavailable(),
    }
}

/// What `plan` gives from state `s` on `reply` when SQLite's later replies
/// are `replies`, each answering the request made before it; `None` where
/// the replies run out too early or go on too long, or one does not answer
/// its request.
pub open spec fn yields<'a, P: Plan<'a>>(plan: P, s: P::State, reply: Reply, replies: Seq<Reply>) -> Option<
    P::Output,
>
    decreases replies.len(),
{
    match plan.next(s, reply) {
        Move::Finish(out) => if replies.len() == 0 {
            Some(out)
        } else {
            None
        },
        Move::Ask(next, request) => if replies.len() > 0 && answers(request, replies[0]) {
            yields(plan, next, replies[0], replies.drop_first())
        } else {
            None
        },
    }
}

/// `out` is what `plan` gives for some sequence of replies from SQLite.
/// This is the same for every plan of one shape whatever its arguments, as
/// the replies are free; which requests were sent is stated by the plan's
/// `advance`, not here.
pub open spec fn can_yield<'a, P: Plan<'a>>(plan: P, out: P::Output) -> bool {
    exists|replies: Seq<Reply>| #[trigger] yields(plan, plan.initial(), Reply::Accepted, replies) == Some(out)
}

/// From state `s` on `reply`, the plan goes on as it does after the
/// replies `trace` from the start.
pub open spec fn tracks<'a, P: Plan<'a>>(plan: P, s: P::State, reply: Reply, trace: Seq<Reply>) -> bool {
    forall|future: Seq<Reply>| #[trigger] yields(plan, s, reply, future) == yields(
        plan,
        plan.initial(),
        Reply::Accepted,
        trace + future,
    )
}

/// In state `s`, awaiting the reply to `request`, the plan goes on as it
/// does after the replies `trace` and that reply.
pub open spec fn tracks_pending<'a, P: Plan<'a>>(plan: P, s: P::State, request: Request<'a>, trace: Seq<Reply>) -> bool {
    forall|r: Reply, future: Seq<Reply>| answers(request, r) ==> #[trigger] yields(plan, s, r, future)
        == yields(plan, plan.initial(), Reply::Accepted, trace.push(r) + future)
}

proof fn lemma_tracks_start<'a, P: Plan<'a>>(plan: P)
    ensures
        tracks(plan, plan.initial(), Reply::Accepted, Seq::empty()),
{
    assert forall|future: Seq<Reply>| #[trigger] yields(plan, plan.initial(), Reply::Accepted, future)
        == yields(plan, plan.initial(), Reply::Accepted, Seq::<Reply>::empty() + future) by {
        assert(Seq::<Reply>::empty() + future =~= future);
    }
}

proof fn lemma_tracks_ask<'a, P: Plan<'a>>(
    plan: P,
    s: P::State,
    reply: Reply,
    trace: Seq<Reply>,
    next: P::State,
    request: Request<'a>,
)
    requires
        plan.next(s, reply) == Move::<'a, P::State, P::Output>::Ask(next, request),
        tracks(plan, s, reply, trace),
    ensures
        tracks_pending(plan, next, request, trace),
{
    assert forall|r: Reply, future: Seq<Reply>| answers(request, r) implies #[trigger] yields(
        plan,
        next,
        r,
        future,
    ) == yields(plan, plan.initial(), Reply::Accepted, trace.push(r) + future) by {
        let replies = seq![r] + future;
        assert(replies[0] == r);
        assert(replies.drop_first() =~= future);
        assert(trace + replies =~= trace.push(r) + future);
        assert(yields(plan, s, reply, replies) == yields(plan, next, r, future));
    }
}

proof fn lemma_tracks_reply<'a, P: Plan<'a>>(
    plan: P,
    s: P::State,
    request: Request<'a>,
    trace: Seq<Reply>,
    r: Reply,
)
    requires
        tracks_pending(plan, s, request, trace),
        answers(request, r),
    ensures
        tracks(plan, s, r, trace.push(r)),
{
}

proof fn lemma_tracks_finish<'a, P: Plan<'a>>(
    plan: P,
    s: P::State,
    reply: Reply,
    trace: Seq<Reply>,
    out: P::Output,
)
    requires
        plan.next(s, reply) == Move::<'a, P::State, P::Output>::Finish(out),
        tracks(plan, s, reply, trace),
    ensures
        can_yield(plan, out),
{
    assert(yields(plan, s, reply, Seq::empty()) == Some(out));
    assert(trace + Seq::<Reply>::empty() =~= trace);
    assert(yields(plan, plan.initial(), Reply::Accepted, trace) == Some(out));
}

/// Runs `plan` on an open store, starting with `start` as the statement in
/// use, and returns its result with the statement in use at the end.
pub fn run<'c, 'a, P: Plan<'a>>(
    plan: &P,
    conn: &'c sql_peas::Connection,
    prepared: &Prepared,
    start: Option<&'c sql_peas::Statement>,
) -> (r: (P::Output, Option<&'c sql_peas::Statement>))
    ensures
        plan.sound(r.0),
        can_yield(*plan, r.0),
        plan.needs_statement(r.0) ==> r.1 is Some,
{
    let mut current = start;
    let mut state = plan.start();
    let mut reply = Reply::Accepted;
    let ghost mut trace: Seq<Reply> = Seq::empty();
    proof {
        lemma_tracks_start(*plan);
    }
    loop
        invariant
            plan.expects(state, reply),
            tracks(*plan, state, reply, trace),
            plan.holds_statement(state) && !(reply is Failed) ==> current is Some,
        decreases plan.rank(state),
    {
        let ghost s0 = state;
        let ghost r0 = reply;
        match plan.advance(state, reply) {
            Move::Finish(out) => {
                proof {
                    lemma_tracks_finish(*plan, s0, r0, trace, out);
                }
                return (out, current);
            },
            Move::Ask(next, request) => {
                proof {
                    lemma_tracks_ask(*plan, s0, r0, trace, next, request);
                }
                let ghost asked = request;
                let r = perform(conn, prepared, &mut current, request);
                proof {
                    lemma_tracks_reply(*plan, next, asked, trace, r);
                    trace = trace.push(r);
                }
                state = next;
                reply = r;
            },
        }
    }
}

/// Runs one statement that reads no rows.
pub struct ExecutePlan {
    pub sql: &'static str,
}

/// Where an `ExecutePlan` stands.
#[derive(Clone, Copy, Debug, PartialEq, Eq, Structural)]
pub enum ExecuteState {
    Start,
    Sent,
}

impl<'a> Plan<'a> for ExecutePlan {
    type State = ExecuteState;

    type Output = Result<(), SqliteError>;

    open spec fn rank(&self, s: ExecuteState) -> nat {
        match s {
            ExecuteState::Start => 1,
            ExecuteState::Sent => 0,
        }
    }

    open spec fn expects(&self, s: ExecuteState, reply: Reply) -> bool {
        match s {
            ExecuteState::Start => reply is Accepted,
            ExecuteState::Sent => reply is Accepted || reply is Failed,
        }
    }

    open spec fn sound(&self, out: Result<(), SqliteError>) -> bool {
        true
    }

    open spec fn initial(&self) -> ExecuteState {
        ExecuteState::Start
    }

    open spec fn holds_statement(&self, s: Self::State) -> bool {
        false
    }

    open spec fn needs_statement(&self, out: Self::Output) -> bool {
        false
    }

    open spec fn next(&self, s: ExecuteState, reply: Reply) -> Move<'a, ExecuteState, Result<(), SqliteError>> {
        match s {
            ExecuteState::Start => Move::Ask(ExecuteState::Sent, Request::Execute(self.sql)),
            ExecuteState::Sent => Move::Finish(
                match reply {
                    Reply::Failed(e) => Err(e),
                    _ => Ok(()),
                },
            ),
        }
    }

    fn start(&self) -> (s: ExecuteState) {
        ExecuteState::Start
    }

    /// Sends the statement; its success or SQLite's error is the result.
    fn advance(&self, s: ExecuteState, reply: Reply) -> (m: Move<'a, ExecuteState, Result<(), SqliteError>>)
    {
        match s {
            ExecuteState::Start => Move::Ask(ExecuteState::Sent, Request::Execute(self.sql)),
            ExecuteState::Sent => Move::Finish(
                match reply {
                    Reply::Failed(e) => Err(e),
                    _ => Ok(()),
                },
            ),
        }
    }
}

/// Makes the statement of a query the one in use.
pub struct BorrowPlan {
    pub query: Query,
}

impl<'a> Plan<'a> for BorrowPlan {
    type State = ExecuteState;

    type Output = Result<(), SqliteError>;

    open spec fn rank(&self, s: ExecuteState) -> nat {
        match s {
            ExecuteState::Start => 1,
            ExecuteState::Sent => 0,
        }
    }

    open spec fn expects(&self, s: ExecuteState, reply: Reply) -> bool {
        match s {
            ExecuteState::Start => reply is Accepted,
            ExecuteState::Sent => reply is Accepted || reply is Failed,
        }
    }

    open spec fn sound(&self, out: Result<(), SqliteError>) -> bool {
        true
    }

    open spec fn initial(&self) -> ExecuteState {
        ExecuteState::Start
    }

    open spec fn holds_statement(&self, s: Self::State) -> bool {
        s == ExecuteState::Sent
    }

    open spec fn needs_statement(&self, out: Self::Output) -> bool {
        out is Ok
    }

    open spec fn next(&self, s: ExecuteState, reply: Reply) -> Move<'a, ExecuteState, Result<(), SqliteError>> {
        match s {
            ExecuteState::Start => Move::Ask(ExecuteState::Sent, Request::Borrow(self.query)),
            ExecuteState::Sent => Move::Finish(
                match reply {
                    Reply::Failed(e) => Err(e),
                    _ => Ok(()),
                },
            ),
        }
    }

    fn start(&self) -> (s: ExecuteState) {
        ExecuteState::Start
    }

    /// Borrows the statement; its success or SQLite's error is the result.
    fn advance(&self, s: ExecuteState, reply: Reply) -> (m: Move<'a, ExecuteState, Result<(), SqliteError>>)
    {
        match s {
            ExecuteState::Start => Move::Ask(ExecuteState::Sent, Request::Borrow(self.query)),
            ExecuteState::Sent => Move::Finish(
                match reply {
                    Reply::Failed(e) => Err(e),
                    _ => Ok(()),
                },
            ),
        }
    }
}

/// The two kinds of store files.
#[derive(Clone, Copy, Debug, PartialEq, Eq, Structural)]
pub enum StoreKind {
    Kv,
    Log,
}

/// The queries a store prepares once its file is set up, in order.
pub open spec fn store_queries(kind: StoreKind) -> Seq<Query> {
    match kind {
        StoreKind::Kv => seq![Query::KvContains, Query::KvGet, Query::KvInsert, Query::KvPrefix],
        StoreKind::Log => seq![Query::LogGet, Query::LogInsert, Query::LogIter],
    }
}

/// The schema stamp of a store's files.
pub open spec fn store_stamp(kind: StoreKind) -> i64 {
    match kind {
        StoreKind::Kv => 1783402338i64,
        StoreKind::Log => 756530437i64,
    }
}

/// Whether a file with schema stamp `user_version` needs setting up as a
/// store of `kind`: yes when it is new (stamp 0), no when it is one
/// already, and `None` when it is some other kind of file.
pub open spec fn stamp_verdict(kind: StoreKind, user_version: i64) -> Option<bool> {
    if user_version == 0 {
        Some(true)
    } else if user_version == store_stamp(kind) {
        Some(false)
    } else {
        None
    }
}

/// The statement that makes a store's table.
pub open spec fn create_sql(kind: StoreKind) -> &'static str {
    match kind {
        StoreKind::Kv => KV_CREATE_TABLE_SQL,
        StoreKind::Log => LOG_CREATE_TABLE_SQL,
    }
}

/// The statement that stamps a store's file.
pub open spec fn stamp_sql(kind: StoreKind) -> &'static str {
    match kind {
        StoreKind::Kv => KV_STAMP_SQL,
        StoreKind::Log => LOG_STAMP_SQL,
    }
}

fn queries_of(kind: StoreKind) -> (r: Vec<Query>)
    ensures
        r@ == store_queries(kind),
{
    match kind {
        StoreKind::Kv => vec![Query::KvContains, Query::KvGet, Query::KvInsert, Query::KvPrefix],
        StoreKind::Log => vec![Query::LogGet, Query::LogInsert, Query::LogIter],
    }
}

/// Why a file could not be opened as a store.
pub enum SetupFailure {
    /// SQLite failed.
    Sqlite(SqliteError),
    /// SQLite reported no schema stamp.
    NoStampRow,
    /// The file carries the stamp of some other kind of file.
    ForeignStamp,
}

/// Sets up a freshly opened file as a store of `kind`: the pragmas, the
/// stamp check, the table and stamp of a new file, then the store's
/// prepared queries.
pub struct SetupPlan {
    pub kind: StoreKind,
}

/// Where a `SetupPlan` stands: which request it awaits the reply to.
#[derive(Clone, Copy, Debug, PartialEq, Eq, Structural)]
pub enum SetupState {
    Start,
    TrustedSchema,
    ForeignKeys,
    PrepareStamp,
    BorrowStamp,
    StepStamp,
    ReadStamp,
    /// Finalizing the stamp query; whether the file is new.
    DropStamp(bool),
    Create,
    Stamp,
    /// Preparing the query at this position of `store_queries`.
    PrepareQuery(usize),
}

/// The move of a `SetupPlan` in state `s` on `reply`.
pub open spec fn setup_move<'a>(kind: StoreKind, s: SetupState, reply: Reply) -> Move<
    'a,
    SetupState,
    Result<(), SetupFailure>,
> {
    let queries = store_queries(kind);
    if s != SetupState::Start && reply is Failed {
        Move::Finish(Err(SetupFailure::Sqlite(reply->Failed_0)))
    } else {
        match s {
            SetupState::Start => Move::Ask(SetupState::TrustedSchema, Request::Execute(TRUSTED_SCHEMA_SQL)),
            SetupState::TrustedSchema => Move::Ask(SetupState::ForeignKeys, Request::Execute(FOREIGN_KEYS_SQL)),
            SetupState::ForeignKeys => Move::Ask(SetupState::PrepareStamp, Request::Prepare(Query::UserVersion)),
            SetupState::PrepareStamp => Move::Ask(SetupState::BorrowStamp, Request::Borrow(Query::UserVersion)),
            SetupState::BorrowStamp => Move::Ask(SetupState::StepStamp, Request::Step),
            SetupState::StepStamp => if reply == Reply::Stepped(Step::Row) {
                Move::Ask(SetupState::ReadStamp, Request::ReadInt(0))
            } else {
                Move::Finish(Err(SetupFailure::NoStampRow))
            },
            SetupState::ReadStamp => match stamp_verdict(kind, reply->Int_0) {
                Some(new_file) => Move::Ask(SetupState::DropStamp(new_file), Request::Drop(Query::UserVersion)),
                None => Move::Finish(Err(SetupFailure::ForeignStamp)),
            },
            SetupState::DropStamp(new_file) => if new_file {
                Move::Ask(SetupState::Create, Request::Execute(create_sql(kind)))
            } else {
                Move::Ask(SetupState::PrepareQuery(0), Request::Prepare(queries[0]))
            },
            SetupState::Create => Move::Ask(SetupState::Stamp, Request::Execute(stamp_sql(kind))),
            SetupState::Stamp => Move::Ask(SetupState::PrepareQuery(0), Request::Prepare(queries[0])),
            SetupState::PrepareQuery(i) => if i + 1 < queries.len() {
                Move::Ask(SetupState::PrepareQuery((i + 1) as usize), Request::Prepare(queries[i + 1]))
            } else {
                Move::Finish(Ok(()))
            },
        }
    }
}

impl<'a> Plan<'a> for SetupPlan {
    type State = SetupState;

    type Output = Result<(), SetupFailure>;

    open spec fn rank(&self, s: SetupState) -> nat {
        match s {
            SetupState::Start => 30,
            SetupState::TrustedSchema => 29,
            SetupState::ForeignKeys => 28,
            SetupState::PrepareStamp => 27,
            SetupState::BorrowStamp => 26,
            SetupState::StepStamp => 25,
            SetupState::ReadStamp => 24,
            SetupState::DropStamp(_) => 23,
            SetupState::Create => 22,
            SetupState::Stamp => 21,
            SetupState::PrepareQuery(i) => if i < 10 {
                (10 - i) as nat
            } else {
                0
            },
        }
    }

    open spec fn expects(&self, s: SetupState, reply: Reply) -> bool {
        match s {
            SetupState::Start => reply is Accepted,
            SetupState::StepStamp => reply is Stepped || reply is Failed,
            SetupState::ReadStamp => reply is Int || reply is Failed,
            SetupState::PrepareQuery(i) => (reply is Accepted || reply is Failed) && i
                < store_queries(self.kind).len(),
            _ => reply is Accepted || reply is Failed,
        }
    }

    open spec fn sound(&self, out: Result<(), SetupFailure>) -> bool {
        true
    }

    open spec fn initial(&self) -> SetupState {
        SetupState::Start
    }

    open spec fn holds_statement(&self, s: Self::State) -> bool {
        false
    }

    open spec fn needs_statement(&self, out: Self::Output) -> bool {
        false
    }

    open spec fn next(&self, s: SetupState, reply: Reply) -> Move<'a, SetupState, Result<(), SetupFailure>> {
        setup_move(self.kind, s, reply)
    }

    fn start(&self) -> (s: SetupState) {
        SetupState::Start
    }

    fn advance(&self, s: SetupState, reply: Reply) -> (m: Move<'a, SetupState, Result<(), SetupFailure>>)
    {
        let queries = queries_of(self.kind);
        let reply = match reply {
            Reply::Failed(e) => {
                if s != SetupState::Start {
                    return Move::Finish(Err(SetupFailure::Sqlite(e)));
                }
                Reply::Failed(e)
            },
            other => other,
        };
        match s {
            SetupState::Start => Move::Ask(SetupState::TrustedSchema, Request::Execute(TRUSTED_SCHEMA_SQL)),
            SetupState::TrustedSchema => Move::Ask(SetupState::ForeignKeys, Request::Execute(FOREIGN_KEYS_SQL)),
            SetupState::ForeignKeys => Move::Ask(SetupState::PrepareStamp, Request::Prepare(Query::UserVersion)),
            SetupState::PrepareStamp => Move::Ask(SetupState::BorrowStamp, Request::Borrow(Query::UserVersion)),
            SetupState::BorrowStamp => Move::Ask(SetupState::StepStamp, Request::Step),
            SetupState::StepStamp => match reply {
                Reply::Stepped(Step::Row) => Move::Ask(SetupState::ReadStamp, Request::ReadInt(0)),
                _ => Move::Finish(Err(SetupFailure::NoStampRow)),
            },
            SetupState::ReadStamp => {
                let v = match reply {
                    Reply::Int(v) => v,
                    _ => 0,
                };
                let stamp = match self.kind {
                    StoreKind::Kv => 1783402338i64,
                    StoreKind::Log => 756530437i64,
                };
                if v == 0 {
                    Move::Ask(SetupState::DropStamp(true), Request::Drop(Query::UserVersion))
                } else if v == stamp {
                    Move::Ask(SetupState::DropStamp(false), Request::Drop(Query::UserVersion))
                } else {
                    Move::Finish(Err(SetupFailure::ForeignStamp))
                }
            },
            SetupState::DropStamp(new_file) => if new_file {
                let create = match self.kind {
                    StoreKind::Kv => KV_CREATE_TABLE_SQL,
                    StoreKind::Log => LOG_CREATE_TABLE_SQL,
                };
                Move::Ask(SetupState::Create, Request::Execute(create))
            } else {
                Move::Ask(SetupState::PrepareQuery(0), Request::Prepare(queries[0]))
            },
            SetupState::Create => {
                let stamp = match self.kind {
                    StoreKind::Kv => KV_STAMP_SQL,
                    StoreKind::Log => LOG_STAMP_SQL,
                };
                Move::Ask(SetupState::Stamp, Request::Execute(stamp))
            },
            SetupState::Stamp => Move::Ask(SetupState::PrepareQuery(0), Request::Prepare(queries[0])),
            SetupState::PrepareQuery(i) => if i + 1 < queries.len() {
                Move::Ask(SetupState::PrepareQuery(i + 1), Request::Prepare(queries[i + 1]))
            } else {
                Move::Finish(Ok(()))
            },
        }
    }
}

/// A setup ends well only where the schema stamp that SQLite reported, the
/// reply to the sixth request, is blank or the store's own: a file of
/// another kind is never set up as this kind.
pub proof fn lemma_setup_checks_stamp(kind: StoreKind, replies: Seq<Reply>)
    requires
        yields(SetupPlan { kind }, SetupState::Start, Reply::Accepted, replies) == Some(
            Ok::<(), SetupFailure>(()),
        ),
    ensures
        replies.len() > 5,
        replies[5] is Int,
        stamp_verdict(kind, replies[5]->Int_0) is Some,
{
    let plan = SetupPlan { kind };
    let ok = Some(Ok::<(), SetupFailure>(()));
    let r1 = replies.drop_first();
    let r2 = r1.drop_first();
    let r3 = r2.drop_first();
    let r4 = r3.drop_first();
    let r5 = r4.drop_first();
    assert(yields(plan, SetupState::TrustedSchema, replies[0], r1) == ok);
    assert(yields(plan, SetupState::ForeignKeys, r1[0], r2) == ok);
    assert(yields(plan, SetupState::PrepareStamp, r2[0], r3) == ok);
    assert(yields(plan, SetupState::BorrowStamp, r3[0], r4) == ok);
    assert(yields(plan, SetupState::StepStamp, r4[0], r5) == ok);
    assert(yields(plan, SetupState::ReadStamp, r5[0], r5.drop_first()) == ok);
    assert(r5[0] == replies[5]);
}

/// Runs `plan` on a freshly opened file, whose requests may compile and
/// finalize statements.
pub fn run_setup<'a, P: Plan<'a>>(
    plan: &P,
    conn: &mut sql_peas::Connection,
    prepared: &mut Prepared,
) -> (r: P::Output)
    ensures
        plan.sound(r),
        can_yield(*plan, r),
{
    let mut state = plan.start();
    let mut reply = Reply::Accepted;
    let ghost mut trace: Seq<Reply> = Seq::empty();
    proof {
        lemma_tracks_start(*plan);
    }
    // A request that needs the connection to itself, left by the statement
    // loop below.
    let mut pending: Option<Request<'a>> = None;
    loop
        invariant
            pending is None ==> plan.expects(state, reply) && tracks(*plan, state, reply, trace),
            pending matches Some(request) ==> (forall|r: Reply|
                answers(request, r) ==> #[trigger] plan.expects(state, r)) && tracks_pending(
                *plan,
                state,
                request,
                trace,
            ),
        decreases plan.rank(state), if pending is Some { 1nat } else { 0nat },
    {
        if let Some(request) = pending {
            let ghost asked = request;
            pending = None;
            reply = perform_exclusive(conn, prepared, request);
            proof {
                lemma_tracks_reply(*plan, state, asked, trace, reply);
                trace = trace.push(reply);
            }
            continue;
        }
        let ghost rank0 = plan.rank(state);
        let ghost s0 = state;
        let ghost r0 = reply;
        match plan.advance(state, reply) {
            Move::Finish(out) => {
                proof {
                    lemma_tracks_finish(*plan, s0, r0, trace, out);
                }
                return out;
            },
            Move::Ask(next, Request::Borrow(q)) => {
                proof {
                    lemma_tracks_ask(*plan, s0, r0, trace, next, Request::Borrow(q));
                }
                state = next;
                let mut current: Option<&sql_peas::Statement> = None;
                reply = perform(conn, prepared, &mut current, Request::Borrow(q));
                proof {
                    lemma_tracks_reply(*plan, state, Request::Borrow(q), trace, reply);
                    trace = trace.push(reply);
                }
                // Serve the statement's requests until the plan needs the
                // connection to itself.
                loop
                    invariant_except_break
                        plan.expects(state, reply),
                        tracks(*plan, state, reply, trace),
                        pending is None,
                    invariant
                        plan.rank(state) < rank0,
                    ensures
                        pending matches Some(request) && (forall|r: Reply|
                            answers(request, r) ==> #[trigger] plan.expects(state, r))
                            && tracks_pending(*plan, state, request, trace),
                    decreases plan.rank(state),
                {
                    let ghost s1 = state;
                    let ghost r1 = reply;
                    match plan.advance(state, reply) {
                        Move::Finish(out) => {
                            proof {
                                lemma_tracks_finish(*plan, s1, r1, trace, out);
                            }
                            return out;
                        },
                        Move::Ask(next, request) => {
                            proof {
                                lemma_tracks_ask(*plan, s1, r1, trace, next, request);
                            }
                            let ghost asked = request;
                            state = next;
                            match request {
                                Request::Prepare(q) => {
                                    pending = Some(Request::Prepare(q));
                                    // Replaced by the reply to the pending request.
                                    reply = Reply::Accepted;
                                    break;
                                },
                                Request::Drop(q) => {
                                    pending = Some(Request::Drop(q));
                                    // Replaced by the reply to the pending request.
                                    reply = Reply::Accepted;
                                    break;
                                },
                                other => {
                                    reply = perform(conn, prepared, &mut current, other);
                                    proof {
                                        lemma_tracks_reply(*plan, state, asked, trace, reply);
                                        trace = trace.push(reply);
                                    }
                                },
                            }
                        },
                    }
                }
            },
            Move::Ask(next, request) => {
                proof {
                    lemma_tracks_ask(*plan, s0, r0, trace, next, request);
                }
                let ghost asked = request;
                state = next;
                let mut current: Option<&sql_peas::Statement> = None;
                reply = match request {
                    Request::Prepare(q) => perform_exclusive(conn, prepared, Request::Prepare(q)),
                    Request::Drop(q) => perform_exclusive(conn, prepared, Request::Drop(q)),
                    other => perform(conn, prepared, &mut current, other),
                };
                proof {
                    lemma_tracks_reply(*plan, state, asked, trace, reply);
                    trace = trace.push(reply);
                }
            },
        }
    }
}

/// Compiles or finalizes the statement of a query.
fn perform_exclusive<'a>(conn: &mut sql_peas::Connection, prepared: &mut Prepared, request: Request<'a>) -> (reply: Reply)
    ensures
        answers(request, reply),
{
    match request {
        Request::Prepare(q) => match db::prepare(conn, sql_of(q)) {
            Ok(handle) => {
                prepared.add(q, handle);
                Reply::Accepted
            },
            Err(e) => Reply::Failed(e),
        },
        Request::Drop(q) => match prepared.find(q) {
            Some(handle) => match db::drop_statement(conn, handle) {
                Ok(()) => {
                    prepared.remove(q);
                    Reply::Accepted
                },
                Err(e) => Reply::Failed(e),
            },
            None => unavailable(),
        },
        _ => unavailable(),
    }
}

} // verus!
