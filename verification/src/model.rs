//! A model of what SQLite answers to the requests the stores make: the
//! contents of a file (its key-value entries, its log rows and its schema
//! stamp) and a session over it (the statement in use, what is bound to it
//! and how far it has been stepped), with the answer each request gets and
//! the session it leaves.
//!
//! It holds no exec code and nothing rests on it: it is what the laws of
//! the stores are stated over. A law says what a plan gives when SQLite's
//! replies are the ones this model gives, whatever the file holds.
use vstd::prelude::*;

use crate::db::Step;
use crate::plan::{
    Move, Plan, Query, Reply, Request, KV_CLEAR_SQL, KV_STAMP_SQL, LOG_CLEAR_SQL, LOG_STAMP_SQL,
    yields, answers,
};
use crate::text::text_le;

verus! {

/// A row of a log file.
pub struct LogRow {
    /// The row's index (`idx`).
    pub index: i64,
    /// The ULID text stored with it.
    pub ulid: Seq<char>,
    /// The value stored with it.
    pub value: Seq<char>,
}

/// What a database file holds.
pub struct Store {
    /// The key-value entries.
    pub kv: Map<Seq<char>, Seq<char>>,
    /// The log rows, in the order they were written.
    pub log: Seq<LogRow>,
    /// The schema stamp (`PRAGMA user_version`).
    pub stamp: i64,
}

/// A column of a row that a statement produced.
pub enum Cell {
    Int(i64),
    Text(Seq<char>),
}

/// A connection to a file, with the statement in use.
pub struct Session {
    pub store: Store,
    /// The query of the statement in use.
    pub query: Option<Query>,
    /// The text bound to parameter 1.
    pub text1: Seq<char>,
    /// The text bound to parameter 2.
    pub text2: Seq<char>,
    /// The integer bound to parameter 1.
    pub int1: i64,
    /// How many steps the statement in use has taken since it was reset.
    pub done: nat,
    /// The row the last step produced.
    pub row: Option<Seq<Cell>>,
}

/// What SQLite answers to a request.
pub enum Answer {
    Accepted,
    Stepped(Step),
    Int(i64),
    Text(Seq<char>),
    Failed,
}

/// A session over `store` with no statement in use.
pub open spec fn session(store: Store) -> Session {
    Session {
        store,
        query: None,
        text1: Seq::empty(),
        text2: Seq::empty(),
        int1: 0,
        done: 0,
        row: None,
    }
}

/// The columns a log row is read back in: index, ULID text, value.
pub open spec fn log_cells(r: LogRow) -> Seq<Cell> {
    seq![Cell::Int(r.index), Cell::Text(r.ulid), Cell::Text(r.value)]
}

/// The rows of `log` whose index is `i`, in order.
pub open spec fn rows_at(log: Seq<LogRow>, i: i64) -> Seq<LogRow>
    decreases log.len(),
{
    if log.len() == 0 {
        Seq::empty()
    } else if log.last().index == i {
        rows_at(log.drop_last(), i).push(log.last())
    } else {
        rows_at(log.drop_last(), i)
    }
}

/// `log` holds a row with the ULID text `ulid`.
pub open spec fn ulid_taken(log: Seq<LogRow>, ulid: Seq<char>) -> bool {
    exists|k: int| 0 <= k < log.len() && #[trigger] log[k].ulid == ulid
}

/// The index SQLite gives the next row of `log`: one past the last, or 1.
pub open spec fn next_index(log: Seq<LogRow>) -> i64 {
    if log.len() == 0 {
        1
    } else {
        (log.last().index + 1) as i64
    }
}

/// The keys of `kv` from `from` on, in code-point order.
pub open spec fn keys_from(kv: Map<Seq<char>, Seq<char>>, from: Seq<char>) -> Seq<Seq<char>> {
    choose|ks: Seq<Seq<char>>|
        ks.to_set() == kv.dom().filter(|k: Seq<char>| text_le(from, k)) && ks.no_duplicates() && (
        forall|i: int, j: int| 0 <= i < j < ks.len() ==> text_le(#[trigger] ks[i], #[trigger] ks[j]))
}

/// The rows of `log` in the order of their ULID texts.
pub open spec fn ulid_order(log: Seq<LogRow>) -> Seq<LogRow> {
    choose|rs: Seq<LogRow>|
        rs.to_multiset() == log.to_multiset() && (forall|i: int, j: int|
            0 <= i < j < rs.len() ==> text_le(#[trigger] rs[i].ulid, #[trigger] rs[j].ulid))
}

/// The rows that the statement in use produces, for the queries that only
/// read.
pub open spec fn rows(sess: Session) -> Seq<Seq<Cell>> {
    let st = sess.store;
    match sess.query {
        Some(Query::UserVersion) => seq![seq![Cell::Int(st.stamp)]],
        Some(Query::KvContains) => seq![
            seq![Cell::Int(if st.kv.contains_key(sess.text1) { 1i64 } else { 0i64 })],
        ],
        Some(Query::KvGet) => if st.kv.contains_key(sess.text1) {
            seq![seq![Cell::Text(st.kv[sess.text1])]]
        } else {
            Seq::empty()
        },
        Some(Query::KvPrefix) => keys_from(st.kv, sess.text1).map_values(
            |k: Seq<char>| seq![Cell::Text(k), Cell::Text(st.kv[k])],
        ),
        Some(Query::LogGet) => rows_at(st.log, sess.int1).map_values(|r: LogRow| log_cells(r)),
        Some(Query::LogIter) => ulid_order(st.log).map_values(|r: LogRow| log_cells(r)),
        _ => Seq::empty(),
    }
}

/// What running the statement `sql` leaves of `st`.
pub open spec fn executed(st: Store, sql: &str) -> Store {
    if sql == KV_CLEAR_SQL {
        Store { kv: Map::empty(), ..st }
    } else if sql == LOG_CLEAR_SQL {
        Store { log: Seq::empty(), ..st }
    } else if sql == KV_STAMP_SQL {
        Store { stamp: 1783402338i64, ..st }
    } else if sql == LOG_STAMP_SQL {
        Store { stamp: 756530437i64, ..st }
    } else {
        st
    }
}

/// What SQLite answers to `request` in `sess`.
pub open spec fn answer(sess: Session, request: Request) -> Answer {
    match request {
        Request::BindText(i, _) => if i == 1 || i == 2 {
            Answer::Accepted
        } else {
            Answer::Failed
        },
        Request::BindInt(i, _) => if i == 1 {
            Answer::Accepted
        } else {
            Answer::Failed
        },
        Request::Step => match sess.query {
            None => Answer::Failed,
            Some(Query::KvInsert) => Answer::Stepped(Step::Done),
            Some(Query::LogInsert) => if sess.done > 0 {
                Answer::Stepped(Step::Done)
            } else if ulid_taken(sess.store.log, sess.text1) {
                Answer::Failed
            } else {
                Answer::Stepped(Step::Row)
            },
            Some(_) => if sess.done < rows(sess).len() {
                Answer::Stepped(Step::Row)
            } else {
                Answer::Stepped(Step::Done)
            },
        },
        Request::ReadInt(c) => match sess.row {
            Some(r) => if c < r.len() && r[c as int] is Int {
                Answer::Int(r[c as int]->Int_0)
            } else {
                Answer::Failed
            },
            None => Answer::Failed,
        },
        Request::ReadText(c) => match sess.row {
            Some(r) => if c < r.len() && r[c as int] is Text {
                Answer::Text(r[c as int]->Text_0)
            } else {
                Answer::Failed
            },
            None => Answer::Failed,
        },
        _ => Answer::Accepted,
    }
}

/// The session that `request` leaves of `sess`.
pub open spec fn after(sess: Session, request: Request) -> Session {
    match request {
        Request::Execute(sql) => Session { store: executed(sess.store, sql), ..sess },
        Request::Borrow(q) => Session { query: Some(q), done: 0, row: None, ..sess },
        Request::BindText(i, t) => if i == 1 {
            Session { text1: t@, ..sess }
        } else if i == 2 {
            Session { text2: t@, ..sess }
        } else {
            sess
        },
        Request::BindInt(i, n) => if i == 1 {
            Session { int1: n, ..sess }
        } else {
            sess
        },
        Request::Step => match sess.query {
            None => sess,
            Some(Query::KvInsert) => if sess.done == 0 {
                Session {
                    store: Store { kv: sess.store.kv.insert(sess.text1, sess.text2), ..sess.store },
                    done: 1,
                    row: None,
                    ..sess
                }
            } else {
                Session { row: None, ..sess }
            },
            Some(Query::LogInsert) => if sess.done > 0 {
                Session { done: sess.done + 1, row: None, ..sess }
            } else if ulid_taken(sess.store.log, sess.text1) {
                sess
            } else {
                let index = next_index(sess.store.log);
                Session {
                    store: Store {
                        log: sess.store.log.push(
                            LogRow { index, ulid: sess.text1, value: sess.text2 },
                        ),
                        ..sess.store
                    },
                    done: 1,
                    row: Some(seq![Cell::Int(index)]),
                    ..sess
                }
            },
            Some(_) => if sess.done < rows(sess).len() {
                Session { done: sess.done + 1, row: Some(rows(sess)[sess.done as int]), ..sess }
            } else {
                Session { row: None, ..sess }
            },
        },
        _ => sess,
    }
}

/// `reply` is the answer `a`: the same shape and value, a text with the
/// same characters, or any failure for a failure.
pub open spec fn agrees(reply: Reply, a: Answer) -> bool {
    match a {
        Answer::Accepted => reply is Accepted,
        Answer::Stepped(x) => reply == Reply::Stepped(x),
        Answer::Int(n) => reply == Reply::Int(n),
        Answer::Text(t) => reply matches Reply::Text(s) && s@ == t,
        Answer::Failed => reply is Failed,
    }
}

/// Where `replies` are the answers of the model, from session `sess`, to
/// the requests that `plan` makes from state `s` on `reply`: the session
/// they leave. `None` where a reply is not the model's, or the replies do
/// not match the plan's requests in number.
pub open spec fn modelled<'a, P: Plan<'a>>(
    plan: P,
    s: P::State,
    reply: Reply,
    sess: Session,
    replies: Seq<Reply>,
) -> Option<Session>
    decreases replies.len(),
{
    match plan.next(s, reply) {
        Move::Finish(_) => if replies.len() == 0 {
            Some(sess)
        } else {
            None
        },
        Move::Ask(next, request) => if replies.len() > 0 && agrees(replies[0], answer(sess, request)) {
            modelled(plan, next, replies[0], after(sess, request), replies.drop_first())
        } else {
            None
        },
    }
}

/// The model's answer to a request has the shape the request calls for.
proof fn lemma_agrees_answers(sess: Session, request: Request, reply: Reply)
    requires
        agrees(reply, answer(sess, request)),
    ensures
        answers(request, reply),
{
}

/// One request of a plan run against the model: the reply is the model's,
/// and what follows is the run from the next state.
pub proof fn lemma_modelled_ask<'a, P: Plan<'a>>(
    plan: P,
    s: P::State,
    reply: Reply,
    sess: Session,
    replies: Seq<Reply>,
    next: P::State,
    request: Request<'a>,
)
    requires
        plan.next(s, reply) == Move::<'a, P::State, P::Output>::Ask(next, request),
        modelled(plan, s, reply, sess, replies) is Some,
    ensures
        replies.len() > 0,
        agrees(replies[0], answer(sess, request)),
        modelled(plan, s, reply, sess, replies) == modelled(
            plan,
            next,
            replies[0],
            after(sess, request),
            replies.drop_first(),
        ),
        yields(plan, s, reply, replies) == yields(plan, next, replies[0], replies.drop_first()),
{
    lemma_agrees_answers(sess, request, replies[0]);
}

/// The end of a plan run against the model: no replies are left, the plan
/// gives `out`, and the session is the one reached.
pub proof fn lemma_modelled_finish<'a, P: Plan<'a>>(
    plan: P,
    s: P::State,
    reply: Reply,
    sess: Session,
    replies: Seq<Reply>,
    out: P::Output,
)
    requires
        plan.next(s, reply) == Move::<'a, P::State, P::Output>::Finish(out),
        modelled(plan, s, reply, sess, replies) is Some,
    ensures
        replies.len() == 0,
        yields(plan, s, reply, replies) == Some(out),
        modelled(plan, s, reply, sess, replies) == Some(sess),
{
}

} // verus!
