//! What the stores' operations do, stated over the model of what SQLite
//! answers (`model`): where SQLite's replies are those the model gives for
//! a file, each law says what the operation's plan returns in terms of its
//! arguments and the file, and what the file holds afterwards.
use vstd::prelude::*;

use crate::db::Step;
use crate::error::ErrorKind;
use crate::ids::ulid_decode;
use crate::kv::{
    ContainsPlan, ContainsState, Error, GetPlan, GetState, InsertPlan, InsertState, PrefixPlan,
    PrefixState, ScanPlan, ScanState, ScanStep,
};
use crate::log::{COOKIE_STEP_ROW, Element, LogGetPlan, LogGetState, PushPlan, PushState, RowPlan, RowState};
use crate::model::{
    after, agrees, answer, lemma_modelled_ask, lemma_modelled_finish, log_cells, modelled,
    next_index, rows, rows_at, session, ulid_taken, Cell, LogRow, Session, Store,
};
use crate::model::executed;
use crate::plan::{
    BorrowPlan, create_sql, stamp_sql, stamp_verdict, store_queries, store_stamp, yields, ExecutePlan,
    ExecuteState, Query, Reply, Request, SetupFailure, SetupPlan, SetupState, StoreKind, BEGIN_SQL,
    COMMIT_SQL, FOREIGN_KEYS_SQL, KV_CLEAR_SQL, KV_CREATE_TABLE_SQL, KV_STAMP_SQL, LOG_CLEAR_SQL,
    LOG_CREATE_TABLE_SQL, LOG_STAMP_SQL, TRUSTED_SCHEMA_SQL,
};

verus! {

/// The statements that open and close a transaction leave the file's
/// contents as they are.
proof fn lemma_transaction_statements(st: Store)
    ensures
        crate::model::executed(st, BEGIN_SQL) == st,
        crate::model::executed(st, COMMIT_SQL) == st,
{
    reveal_strlit("BEGIN IMMEDIATE");
    reveal_strlit("COMMIT");
    reveal_strlit("DELETE FROM sql_hummus_0_kv");
    reveal_strlit("DELETE FROM sql_hummus_0_log");
    reveal_strlit("PRAGMA user_version = 1783402338");
    reveal_strlit("PRAGMA user_version = 756530437");
    assert(BEGIN_SQL@.len() != KV_CLEAR_SQL@.len());
    assert(BEGIN_SQL@.len() != LOG_CLEAR_SQL@.len());
    assert(BEGIN_SQL@.len() != KV_STAMP_SQL@.len());
    assert(BEGIN_SQL@.len() != LOG_STAMP_SQL@.len());
    assert(COMMIT_SQL@.len() != KV_CLEAR_SQL@.len());
    assert(COMMIT_SQL@.len() != LOG_CLEAR_SQL@.len());
    assert(COMMIT_SQL@.len() != KV_STAMP_SQL@.len());
    assert(COMMIT_SQL@.len() != LOG_STAMP_SQL@.len());
}

/// `contains_key` tells whether the file holds an entry under the key
/// asked: where SQLite answers as the file `st` does, `ContainsPlan` gives
/// `Ok(true)` exactly when `st` has an entry whose key is `key`, and leaves
/// the file as it was.
pub proof fn law_contains_key(key: &str, st: Store, replies: Seq<Reply>)
    requires
        modelled(ContainsPlan { key }, ContainsState::Start, Reply::Accepted, session(st), replies) is Some,
    ensures
        yields(ContainsPlan { key }, ContainsState::Start, Reply::Accepted, replies) == Some(
            Ok::<bool, Error>(st.kv.contains_key(key@)),
        ),
        modelled(ContainsPlan { key }, ContainsState::Start, Reply::Accepted, session(st), replies)->0.store
            == st,
{
    let plan = ContainsPlan { key };
    let s0 = session(st);
    let q0 = Request::Borrow(Query::KvContains);
    lemma_modelled_ask(plan, ContainsState::Start, Reply::Accepted, s0, replies, ContainsState::Borrow, q0);
    let r1 = replies.drop_first();
    let s1 = after(s0, q0);
    let q1 = Request::BindText(1, key);
    lemma_modelled_ask(plan, ContainsState::Borrow, replies[0], s1, r1, ContainsState::Bind, q1);
    let r2 = r1.drop_first();
    let s2 = after(s1, q1);
    lemma_modelled_ask(plan, ContainsState::Bind, r1[0], s2, r2, ContainsState::Step, Request::Step);
    let r3 = r2.drop_first();
    let s3 = after(s2, Request::Step);
    assert(rows(s2).len() == 1);
    assert(r2[0] == Reply::Stepped(Step::Row));
    let q3 = Request::ReadInt(0);
    lemma_modelled_ask(plan, ContainsState::Step, r2[0], s3, r3, ContainsState::Read, q3);
    let r4 = r3.drop_first();
    let count: i64 = if st.kv.contains_key(key@) { 1 } else { 0 };
    assert(r3[0] == Reply::Int(count));
    lemma_modelled_finish(
        plan,
        ContainsState::Read,
        r3[0],
        after(s3, q3),
        r4,
        Ok::<bool, Error>(st.kv.contains_key(key@)),
    );
}

/// `get` gives the value stored under the key asked: where SQLite answers
/// as the file `st` does, `GetPlan` gives `Ok(Some(v))` with `v` the value
/// of `key` in `st` where `st` has an entry for it, and `Ok(None)` where it
/// has none; the file is left as it was.
pub proof fn law_get(key: &str, st: Store, replies: Seq<Reply>)
    requires
        modelled(GetPlan { key }, GetState::Start, Reply::Accepted, session(st), replies) is Some,
    ensures
        yields(GetPlan { key }, GetState::Start, Reply::Accepted, replies) matches Some(Ok(found))
            && match found {
            Some(v) => st.kv.contains_key(key@) && v@ == st.kv[key@],
            None => !st.kv.contains_key(key@),
        },
        modelled(GetPlan { key }, GetState::Start, Reply::Accepted, session(st), replies)->0.store
            == st,
{
    let plan = GetPlan { key };
    let s0 = session(st);
    let q0 = Request::Borrow(Query::KvGet);
    lemma_modelled_ask(plan, GetState::Start, Reply::Accepted, s0, replies, GetState::Borrow, q0);
    let r1 = replies.drop_first();
    let s1 = after(s0, q0);
    let q1 = Request::BindText(1, key);
    lemma_modelled_ask(plan, GetState::Borrow, replies[0], s1, r1, GetState::Bind, q1);
    let r2 = r1.drop_first();
    let s2 = after(s1, q1);
    lemma_modelled_ask(plan, GetState::Bind, r1[0], s2, r2, GetState::Step, Request::Step);
    let r3 = r2.drop_first();
    let s3 = after(s2, Request::Step);
    if st.kv.contains_key(key@) {
        assert(r2[0] == Reply::Stepped(Step::Row));
        let q3 = Request::ReadText(0);
        lemma_modelled_ask(plan, GetState::Step, r2[0], s3, r3, GetState::Read, q3);
        let r4 = r3.drop_first();
        assert(r3[0] is Text);
        lemma_modelled_finish(
            plan,
            GetState::Read,
            r3[0],
            after(s3, q3),
            r4,
            Ok::<Option<String>, Error>(Some(r3[0]->Text_0)),
        );
    } else {
        assert(r2[0] == Reply::Stepped(Step::Done));
        lemma_modelled_finish(plan, GetState::Step, r2[0], s3, r3, Ok::<Option<String>, Error>(None));
    }
}

/// `insert` sets the value of the key and gives the value it had: where
/// SQLite answers as the file `st` does, `InsertPlan` gives `Ok(Some(v))`
/// with `v` the value `key` had in `st`, or `Ok(None)` where it had none,
/// whatever other keys hold; afterwards `key` maps to `value` and every
/// other entry is as it was.
pub proof fn law_insert(key: &str, value: &str, st: Store, replies: Seq<Reply>)
    requires
        modelled(InsertPlan { key, value }, InsertState::Start, Reply::Accepted, session(st), replies)
            is Some,
    ensures
        yields(InsertPlan { key, value }, InsertState::Start, Reply::Accepted, replies) matches Some(
            Ok(old),
        ) && match old {
            Some(v) => st.kv.contains_key(key@) && v@ == st.kv[key@],
            None => !st.kv.contains_key(key@),
        },
        modelled(InsertPlan { key, value }, InsertState::Start, Reply::Accepted, session(st), replies)->0.store
            == (Store { kv: st.kv.insert(key@, value@), ..st }),
{
    let plan = InsertPlan { key, value };
    lemma_transaction_statements(st);
    let s0 = session(st);
    let q0 = Request::Execute(BEGIN_SQL);
    lemma_modelled_ask(plan, InsertState::Start, Reply::Accepted, s0, replies, InsertState::Begin, q0);
    let r1 = replies.drop_first();
    let s1 = after(s0, q0);
    assert(s1 == s0);
    let q1 = Request::Borrow(Query::KvGet);
    lemma_modelled_ask(plan, InsertState::Begin, replies[0], s1, r1, InsertState::BorrowGet, q1);
    let r2 = r1.drop_first();
    let s2 = after(s1, q1);
    let q2 = Request::BindText(1, key);
    lemma_modelled_ask(plan, InsertState::BorrowGet, r1[0], s2, r2, InsertState::BindGet, q2);
    let r3 = r2.drop_first();
    let s3 = after(s2, q2);
    lemma_modelled_ask(plan, InsertState::BindGet, r2[0], s3, r3, InsertState::StepGet, Request::Step);
    let r4 = r3.drop_first();
    let s4 = after(s3, Request::Step);
    let q5 = Request::Borrow(Query::KvInsert);
    // From here the two paths differ only in the old value carried along.
    let (r5, s5, old) = if st.kv.contains_key(key@) {
        assert(r3[0] == Reply::Stepped(Step::Row));
        let q4 = Request::ReadText(0);
        lemma_modelled_ask(plan, InsertState::StepGet, r3[0], s4, r4, InsertState::ReadOld, q4);
        assert(r4[0] is Text);
        let old = Some(r4[0]->Text_0);
        lemma_modelled_ask(plan, InsertState::ReadOld, r4[0], after(s4, q4), r4.drop_first(),
            InsertState::BorrowInsert(old), q5);
        (r4.drop_first(), after(s4, q4), old)
    } else {
        assert(r3[0] == Reply::Stepped(Step::Done));
        lemma_modelled_ask(plan, InsertState::StepGet, r3[0], s4, r4, InsertState::BorrowInsert(None), q5);
        (r4, s4, None::<String>)
    };
    assert(s5.store == st);
    let r6 = r5.drop_first();
    let s6 = after(s5, q5);
    let q6 = Request::BindText(1, key);
    lemma_modelled_ask(plan, InsertState::BorrowInsert(old), r5[0], s6, r6, InsertState::BindKey(old), q6);
    let r7 = r6.drop_first();
    let s7 = after(s6, q6);
    let q7 = Request::BindText(2, value);
    lemma_modelled_ask(plan, InsertState::BindKey(old), r6[0], s7, r7, InsertState::BindValue(old), q7);
    let r8 = r7.drop_first();
    let s8 = after(s7, q7);
    lemma_modelled_ask(plan, InsertState::BindValue(old), r7[0], s8, r8, InsertState::StepInsert(old),
        Request::Step);
    let r9 = r8.drop_first();
    let s9 = after(s8, Request::Step);
    assert(r8[0] == Reply::Stepped(Step::Done));
    assert(s9.store == (Store { kv: st.kv.insert(key@, value@), ..st }));
    let q9 = Request::Execute(COMMIT_SQL);
    lemma_transaction_statements(s9.store);
    lemma_modelled_ask(plan, InsertState::StepInsert(old), r8[0], s9, r9, InsertState::Commit(old), q9);
    lemma_modelled_finish(plan, InsertState::Commit(old), r9[0], after(s9, q9), r9.drop_first(),
        Ok::<Option<String>, Error>(old));
}

/// Reading after writing: where SQLite answers as the file does, `get` of
/// a key right after `insert` of that key gives the value inserted.
pub proof fn law_get_after_insert(
    key: &str,
    value: &str,
    st: Store,
    inserted: Seq<Reply>,
    read: Seq<Reply>,
)
    requires
        modelled(InsertPlan { key, value }, InsertState::Start, Reply::Accepted, session(st), inserted)
            is Some,
        modelled(
            GetPlan { key },
            GetState::Start,
            Reply::Accepted,
            session(
                modelled(InsertPlan { key, value }, InsertState::Start, Reply::Accepted, session(st), inserted)->0.store,
            ),
            read,
        ) is Some,
    ensures
        yields(GetPlan { key }, GetState::Start, Reply::Accepted, read) matches Some(Ok(Some(v)))
            && v@ == value@,
{
    law_insert(key, value, st, inserted);
    let st2 = modelled(InsertPlan { key, value }, InsertState::Start, Reply::Accepted, session(st), inserted)->0.store;
    law_get(key, st2, read);
}

/// `clear` empties the file of entries: where SQLite answers as the file
/// `st` does, running `DELETE FROM sql_hummus_0_kv` succeeds and leaves no
/// entry, and the rest of the file as it was.
pub proof fn law_clear(st: Store, replies: Seq<Reply>)
    requires
        modelled(ExecutePlan { sql: KV_CLEAR_SQL }, ExecuteState::Start, Reply::Accepted, session(st), replies)
            is Some,
    ensures
        yields(ExecutePlan { sql: KV_CLEAR_SQL }, ExecuteState::Start, Reply::Accepted, replies) == Some(
            Ok::<(), crate::db::SqliteError>(()),
        ),
        modelled(ExecutePlan { sql: KV_CLEAR_SQL }, ExecuteState::Start, Reply::Accepted, session(st), replies)->0.store
            == (Store { kv: Map::empty(), ..st }),
{
    let plan = ExecutePlan { sql: KV_CLEAR_SQL };
    let q0 = Request::Execute(KV_CLEAR_SQL);
    lemma_modelled_ask(plan, ExecuteState::Start, Reply::Accepted, session(st), replies, ExecuteState::Sent, q0);
    lemma_modelled_finish(plan, ExecuteState::Sent, replies[0], after(session(st), q0), replies.drop_first(),
        Ok::<(), crate::db::SqliteError>(()));
}

/// The rows `rows_at` finds for `i` all have the index `i`.
proof fn lemma_rows_at_index(log: Seq<LogRow>, i: i64)
    ensures
        forall|k: int| 0 <= k < rows_at(log, i).len() ==> #[trigger] rows_at(log, i)[k].index == i,
    decreases log.len(),
{
    if log.len() > 0 {
        lemma_rows_at_index(log.drop_last(), i);
        let before = rows_at(log.drop_last(), i);
        if log.last().index == i {
            assert forall|k: int| 0 <= k < rows_at(log, i).len() implies #[trigger] rows_at(log, i)[k].index
                == i by {
                if k < before.len() {
                    assert(rows_at(log, i)[k] == before[k]);
                }
            }
        }
    }
}

/// `get_by_index` gives the element stored at the index asked: where SQLite
/// answers as the file `st` does, and `st` holds one row at `index`,
/// `LogGetPlan` gives that row as an element (its index, the ULID its text
/// encodes, and its value, whatever the value is), or the decode error
/// where its ULID text is no ULID; where `st` holds no row at `index`, it
/// gives `Ok(None)`. The file is left as it was.
pub proof fn law_get_by_index(index: i64, st: Store, replies: Seq<Reply>)
    requires
        rows_at(st.log, index).len() <= 1,
        modelled(LogGetPlan { index }, LogGetState::Start, Reply::Accepted, session(st), replies)
            is Some,
    ensures
        rows_at(st.log, index).len() == 0 ==> yields(
            LogGetPlan { index },
            LogGetState::Start,
            Reply::Accepted,
            replies,
        ) == Some(Ok::<Option<Element>, ErrorKind>(None)),
        rows_at(st.log, index).len() == 1 ==> {
            let row = rows_at(st.log, index)[0];
            match ulid_decode(row.ulid) {
                Ok(ulid) => yields(LogGetPlan { index }, LogGetState::Start, Reply::Accepted, replies)
                    matches Some(Ok(Some(e))) && e.index == index && e.ulid == ulid && e.value@
                    == row.value,
                Err(k) => yields(LogGetPlan { index }, LogGetState::Start, Reply::Accepted, replies)
                    == Some(Err::<Option<Element>, ErrorKind>(ErrorKind::UlidDecode(k))),
            }
        },
        modelled(LogGetPlan { index }, LogGetState::Start, Reply::Accepted, session(st), replies)->0.store
            == st,
{
    let plan = LogGetPlan { index };
    lemma_rows_at_index(st.log, index);
    let s0 = session(st);
    let q0 = Request::Borrow(Query::LogGet);
    lemma_modelled_ask(plan, LogGetState::Start, Reply::Accepted, s0, replies, LogGetState::Borrow, q0);
    let r1 = replies.drop_first();
    let s1 = after(s0, q0);
    let q1 = Request::BindInt(1, index);
    lemma_modelled_ask(plan, LogGetState::Borrow, replies[0], s1, r1, LogGetState::Bind, q1);
    let r2 = r1.drop_first();
    let s2 = after(s1, q1);
    lemma_modelled_ask(plan, LogGetState::Bind, r1[0], s2, r2, LogGetState::Step, Request::Step);
    let r3 = r2.drop_first();
    let s3 = after(s2, Request::Step);
    assert(rows(s2) == rows_at(st.log, index).map_values(|r: LogRow| log_cells(r)));
    if rows_at(st.log, index).len() == 0 {
        assert(r2[0] == Reply::Stepped(Step::Done));
        lemma_modelled_finish(plan, LogGetState::Step, r2[0], s3, r3,
            Ok::<Option<Element>, ErrorKind>(None));
    } else {
        let row = rows_at(st.log, index)[0];
        assert(r2[0] == Reply::Stepped(Step::Row));
        assert(s3.row == Some(log_cells(row)));
        let q3 = Request::ReadInt(0);
        lemma_modelled_ask(plan, LogGetState::Step, r2[0], s3, r3, LogGetState::ReadIndex, q3);
        let r4 = r3.drop_first();
        let s4 = after(s3, q3);
        assert(r3[0] == Reply::Int(index));
        let q4 = Request::ReadText(1);
        lemma_modelled_ask(plan, LogGetState::ReadIndex, r3[0], s4, r4, LogGetState::ReadUlid, q4);
        let r5 = r4.drop_first();
        let s5 = after(s4, q4);
        assert(r4[0] is Text && r4[0]->Text_0@ == row.ulid);
        match ulid_decode(row.ulid) {
            Ok(ulid) => {
                let q5 = Request::ReadText(2);
                lemma_modelled_ask(plan, LogGetState::ReadUlid, r4[0], s5, r5,
                    LogGetState::ReadValue(ulid), q5);
                assert(r5[0] is Text && r5[0]->Text_0@ == row.value);
                lemma_modelled_finish(plan, LogGetState::ReadValue(ulid), r5[0], after(s5, q5),
                    r5.drop_first(), Ok::<Option<Element>, ErrorKind>(
                    Some(Element { index, ulid, value: r5[0]->Text_0 }),
                ));
            },
            Err(k) => {
                lemma_modelled_finish(plan, LogGetState::ReadUlid, r4[0], s5, r5,
                    Err::<Option<Element>, ErrorKind>(ErrorKind::UlidDecode(k)));
            },
        }
    }
}

/// One step of a log cursor hands out the next row of its statement,
/// whatever the row's value, and moves on by exactly one row: where SQLite
/// answers as the session `sess` does, with a statement in use that only
/// reads, `RowPlan` gives the row at the statement's position as an
/// element (or the decode error where its ULID text is no ULID) and leaves
/// the session one row further on; past the last row it gives `None`.
pub proof fn law_cursor_step(sess: Session, row: LogRow, replies: Seq<Reply>)
    requires
        sess.query matches Some(q) && q != Query::KvInsert && q != Query::LogInsert,
        sess.done < rows(sess).len() ==> rows(sess)[sess.done as int] == log_cells(row),
        modelled(RowPlan, RowState::Start, Reply::Accepted, sess, replies) is Some,
    ensures
        rows(modelled(RowPlan, RowState::Start, Reply::Accepted, sess, replies)->0) == rows(sess),
        sess.done >= rows(sess).len() ==> yields(RowPlan, RowState::Start, Reply::Accepted, replies)
            == Some(None::<core::result::Result<Element, ErrorKind>>),
        sess.done < rows(sess).len() ==> {
            &&& match ulid_decode(row.ulid) {
                Ok(ulid) => yields(RowPlan, RowState::Start, Reply::Accepted, replies) matches Some(
                    Some(Ok(e)),
                ) && e.index == row.index && e.ulid == ulid && e.value@ == row.value,
                Err(k) => yields(RowPlan, RowState::Start, Reply::Accepted, replies) == Some(
                    Some(Err::<Element, ErrorKind>(ErrorKind::UlidDecode(k))),
                ),
            }
            &&& modelled(RowPlan, RowState::Start, Reply::Accepted, sess, replies)->0.done == sess.done
                + 1
            &&& modelled(RowPlan, RowState::Start, Reply::Accepted, sess, replies)->0.store
                == sess.store
        },
{
    let plan = RowPlan;
    lemma_modelled_ask(plan, RowState::Start, Reply::Accepted, sess, replies, RowState::Step, Request::Step);
    let r1 = replies.drop_first();
    let s1 = after(sess, Request::Step);
    assert(rows(s1) == rows(sess));
    if sess.done >= rows(sess).len() {
        assert(replies[0] == Reply::Stepped(Step::Done));
        lemma_modelled_finish(plan, RowState::Step, replies[0], s1, r1,
            None::<core::result::Result<Element, ErrorKind>>);
    } else {
        assert(replies[0] == Reply::Stepped(Step::Row));
        assert(s1.row == Some(log_cells(row)));
        let q1 = Request::ReadInt(0);
        lemma_modelled_ask(plan, RowState::Step, replies[0], s1, r1, RowState::ReadIndex, q1);
        let r2 = r1.drop_first();
        assert(r1[0] == Reply::Int(row.index));
        let q2 = Request::ReadText(1);
        lemma_modelled_ask(plan, RowState::ReadIndex, r1[0], s1, r2, RowState::ReadUlid(row.index), q2);
        let r3 = r2.drop_first();
        assert(r2[0] is Text && r2[0]->Text_0@ == row.ulid);
        match ulid_decode(row.ulid) {
            Ok(ulid) => {
                let q3 = Request::ReadText(2);
                lemma_modelled_ask(plan, RowState::ReadUlid(row.index), r2[0], s1, r3,
                    RowState::ReadValue(row.index, ulid), q3);
                assert(r3[0] is Text && r3[0]->Text_0@ == row.value);
                lemma_modelled_finish(plan, RowState::ReadValue(row.index, ulid), r3[0], s1,
                    r3.drop_first(), Some(Ok::<Element, ErrorKind>(
                    Element { index: row.index, ulid, value: r3[0]->Text_0 },
                )));
            },
            Err(k) => {
                lemma_modelled_finish(plan, RowState::ReadUlid(row.index), r2[0], s1, r3,
                    Some(Err::<Element, ErrorKind>(ErrorKind::UlidDecode(k))));
            },
        }
    }
}

/// `push_inner` appends a row with the ULID text and value given, at the
/// index after the last: where SQLite answers as the file `st` does,
/// `PushPlan` gives `Ok(i)` with `i` one past the last row's index (1 for
/// an empty log), and the log gains that row and nothing else; where `st`
/// already holds the ULID text, SQLite refuses the insert, the plan gives
/// the failure with the cookie of that step, and the file is as it was.
pub proof fn law_push(ts: &str, value: &str, st: Store, replies: Seq<Reply>)
    requires
        modelled(PushPlan { ts, value }, PushState::Start, Reply::Accepted, session(st), replies) is Some,
    ensures
        !ulid_taken(st.log, ts@) ==> {
            &&& yields(PushPlan { ts, value }, PushState::Start, Reply::Accepted, replies) == Some(
                Ok::<i64, (ErrorKind, Option<&'static str>)>(next_index(st.log)),
            )
            &&& modelled(PushPlan { ts, value }, PushState::Start, Reply::Accepted, session(st), replies)->0.store
                == (Store {
                log: st.log.push(LogRow { index: next_index(st.log), ulid: ts@, value: value@ }),
                ..st
            })
        },
        ulid_taken(st.log, ts@) ==> {
            &&& yields(PushPlan { ts, value }, PushState::Start, Reply::Accepted, replies) matches Some(
                Err((kind, cookie)),
            ) && kind is Sqlite && cookie == Some(COOKIE_STEP_ROW)
            &&& modelled(PushPlan { ts, value }, PushState::Start, Reply::Accepted, session(st), replies)->0.store
                == st
        },
{
    let plan = PushPlan { ts, value };
    let s0 = session(st);
    let q0 = Request::Borrow(Query::LogInsert);
    lemma_modelled_ask(plan, PushState::Start, Reply::Accepted, s0, replies, PushState::Borrow, q0);
    let r1 = replies.drop_first();
    let s1 = after(s0, q0);
    let q1 = Request::BindText(1, ts);
    lemma_modelled_ask(plan, PushState::Borrow, replies[0], s1, r1, PushState::BindTime, q1);
    let r2 = r1.drop_first();
    let s2 = after(s1, q1);
    let q2 = Request::BindText(2, value);
    lemma_modelled_ask(plan, PushState::BindTime, r1[0], s2, r2, PushState::BindValue, q2);
    let r3 = r2.drop_first();
    let s3 = after(s2, q2);
    lemma_modelled_ask(plan, PushState::BindValue, r2[0], s3, r3, PushState::StepRow, Request::Step);
    let r4 = r3.drop_first();
    let s4 = after(s3, Request::Step);
    if ulid_taken(st.log, ts@) {
        assert(r3[0] is Failed);
        lemma_modelled_finish(plan, PushState::StepRow, r3[0], s4, r4,
            Err::<i64, (ErrorKind, Option<&'static str>)>(
            (ErrorKind::Sqlite(r3[0]->Failed_0), Some(COOKIE_STEP_ROW)),
        ));
    } else {
        let index = next_index(st.log);
        assert(r3[0] == Reply::Stepped(Step::Row));
        let q4 = Request::ReadInt(0);
        lemma_modelled_ask(plan, PushState::StepRow, r3[0], s4, r4, PushState::ReadIndex, q4);
        let r5 = r4.drop_first();
        let s5 = after(s4, q4);
        assert(r4[0] == Reply::Int(index));
        lemma_modelled_ask(plan, PushState::ReadIndex, r4[0], s5, r5, PushState::StepDone(index),
            Request::Step);
        let s6 = after(s5, Request::Step);
        assert(r5[0] == Reply::Stepped(Step::Done));
        assert(s6.store == s4.store);
        lemma_modelled_finish(plan, PushState::StepDone(index), r5[0], s6, r5.drop_first(),
            Ok::<i64, (ErrorKind, Option<&'static str>)>(index));
    }
}

/// The indices of `log` rise from row to row, and the last leaves room for
/// one more: the rows that `push_inner` writes.
pub open spec fn rising(log: Seq<LogRow>) -> bool {
    &&& forall|i: int, j: int| 0 <= i < j < log.len() ==> #[trigger] log[i].index < #[trigger] log[j].index
    &&& log.len() > 0 ==> log.last().index < i64::MAX
}

/// No row of `log` has the index `i`: `rows_at` finds none.
proof fn lemma_rows_at_none(log: Seq<LogRow>, i: i64)
    requires
        forall|k: int| 0 <= k < log.len() ==> #[trigger] log[k].index != i,
    ensures
        rows_at(log, i).len() == 0,
    decreases log.len(),
{
    if log.len() > 0 {
        assert(log.last() == log[log.len() - 1]);
        lemma_rows_at_none(log.drop_last(), i);
    }
}

/// Reading back what was pushed: where SQLite answers as the file does and
/// its log's indices rise, `get_by_index` of the index that `push_inner`
/// gave finds the element pushed, with its value (the empty one too) and
/// the ULID its text encodes.
pub proof fn law_get_after_push(
    ts: &str,
    value: &str,
    st: Store,
    pushed: Seq<Reply>,
    index: i64,
    read: Seq<Reply>,
)
    requires
        rising(st.log),
        modelled(PushPlan { ts, value }, PushState::Start, Reply::Accepted, session(st), pushed) is Some,
        yields(PushPlan { ts, value }, PushState::Start, Reply::Accepted, pushed) == Some(
            Ok::<i64, (ErrorKind, Option<&'static str>)>(index),
        ),
        modelled(
            LogGetPlan { index },
            LogGetState::Start,
            Reply::Accepted,
            session(
                modelled(PushPlan { ts, value }, PushState::Start, Reply::Accepted, session(st), pushed)->0.store,
            ),
            read,
        ) is Some,
    ensures
        ulid_decode(ts@) matches Ok(ulid) ==> yields(
            LogGetPlan { index },
            LogGetState::Start,
            Reply::Accepted,
            read,
        ) matches Some(Ok(Some(e))) && e.index == index && e.ulid == ulid && e.value@ == value@,
{
    law_push(ts, value, st, pushed);
    let st2 = modelled(PushPlan { ts, value }, PushState::Start, Reply::Accepted, session(st), pushed)->0.store;
    assert(!ulid_taken(st.log, ts@));
    assert(index == next_index(st.log));
    let row = LogRow { index, ulid: ts@, value: value@ };
    assert forall|k: int| 0 <= k < st.log.len() implies #[trigger] st.log[k].index != index by {
        if k < st.log.len() - 1 {
            assert(st.log[k].index < st.log[st.log.len() - 1].index);
        }
    }
    lemma_rows_at_none(st.log, index);
    assert(st2.log.drop_last() =~= st.log);
    assert(rows_at(st2.log, index) =~= seq![row]);
    law_get_by_index(index, st2, read);
}

/// A cursor's steps, each run against the session the one before left:
/// `runs[j]` are SQLite's replies to the `j`-th step.
pub open spec fn walked(sess: Session, runs: Seq<Seq<Reply>>) -> bool
    decreases runs.len(),
{
    runs.len() == 0 || (modelled(RowPlan, RowState::Start, Reply::Accepted, sess, runs[0]) is Some
        && walked(
        modelled(RowPlan, RowState::Start, Reply::Accepted, sess, runs[0])->0,
        runs.drop_first(),
    ))
}

/// The element a cursor step gives for `row`.
pub open spec fn gives_row(out: Option<Option<core::result::Result<Element, ErrorKind>>>, row: LogRow) -> bool {
    out matches Some(Some(Ok(e))) && e.index == row.index && ulid_decode(row.ulid) == Ok::<
        u128,
        crate::ids::UlidDecodeError,
    >(e.ulid) && e.value@ == row.value
}

proof fn lemma_walk(sess: Session, rs: Seq<LogRow>, runs: Seq<Seq<Reply>>, d: nat)
    requires
        sess.query matches Some(q) && q != Query::KvInsert && q != Query::LogInsert,
        sess.done == d,
        d <= rs.len(),
        rows(sess) == rs.map_values(|r: LogRow| log_cells(r)),
        forall|k: int| 0 <= k < rs.len() ==> ulid_decode(#[trigger] rs[k].ulid) is Ok,
        walked(sess, runs),
        runs.len() == rs.len() + 1 - d,
    ensures
        forall|j: int|
            0 <= j < runs.len() - 1 ==> gives_row(
                yields(RowPlan, RowState::Start, Reply::Accepted, #[trigger] runs[j]),
                rs[d + j],
            ),
        yields(RowPlan, RowState::Start, Reply::Accepted, runs[runs.len() - 1]) == Some(
            None::<core::result::Result<Element, ErrorKind>>,
        ),
    decreases runs.len(),
{
    if d == rs.len() {
        law_cursor_step(sess, LogRow { index: 0, ulid: Seq::empty(), value: Seq::empty() }, runs[0]);
    } else {
        let row = rs[d as int];
        law_cursor_step(sess, row, runs[0]);
        let next = modelled(RowPlan, RowState::Start, Reply::Accepted, sess, runs[0])->0;
        lemma_walk(next, rs, runs.drop_first(), d + 1);
        assert forall|j: int| 0 <= j < runs.len() - 1 implies gives_row(
            yields(RowPlan, RowState::Start, Reply::Accepted, #[trigger] runs[j]),
            rs[d + j],
        ) by {
            if j > 0 {
                assert(runs[j] == runs.drop_first()[j - 1]);
            }
        }
        assert(runs[runs.len() - 1] == runs.drop_first()[runs.drop_first().len() - 1]);
    }
}

/// A log cursor walks every row of its statement in order, one element per
/// row whatever the values, and then ends: where SQLite answers as the
/// session does, and the statement's rows `rs` all hold ULIDs, the first
/// `rs.len()` steps of a fresh cursor give the rows of `rs` in order and
/// the next gives `None`. For the iteration query, `rs` is the log in ULID
/// order.
pub proof fn law_cursor_walk(sess: Session, rs: Seq<LogRow>, runs: Seq<Seq<Reply>>)
    requires
        sess.query matches Some(q) && q != Query::KvInsert && q != Query::LogInsert,
        sess.done == 0,
        rows(sess) == rs.map_values(|r: LogRow| log_cells(r)),
        forall|k: int| 0 <= k < rs.len() ==> ulid_decode(#[trigger] rs[k].ulid) is Ok,
        walked(sess, runs),
        runs.len() == rs.len() + 1,
    ensures
        forall|j: int|
            0 <= j < rs.len() ==> gives_row(
                yields(RowPlan, RowState::Start, Reply::Accepted, #[trigger] runs[j]),
                rs[j],
            ),
        yields(RowPlan, RowState::Start, Reply::Accepted, runs[rs.len() as int]) == Some(
            None::<core::result::Result<Element, ErrorKind>>,
        ),
{
    lemma_walk(sess, rs, runs, 0);
}

/// `with_prefix` starts a scan of the keys from the prefix on: where
/// SQLite answers as the file `st` does, `PrefixPlan` succeeds and leaves
/// the prefix query in use, bound to the prefix and not yet stepped, so
/// that its rows are the entries whose keys sort at or after the prefix,
/// in key order.
pub proof fn law_prefix_start(prefix: &str, st: Store, replies: Seq<Reply>)
    requires
        modelled(PrefixPlan { prefix }, PrefixState::Start, Reply::Accepted, session(st), replies) is Some,
    ensures
        yields(PrefixPlan { prefix }, PrefixState::Start, Reply::Accepted, replies) == Some(
            Ok::<(), Error>(()),
        ),
        ({
            let sess = modelled(PrefixPlan { prefix }, PrefixState::Start, Reply::Accepted, session(st), replies)->0;
            &&& sess.store == st
            &&& sess.query == Some(Query::KvPrefix)
            &&& sess.text1 == prefix@
            &&& sess.done == 0
            &&& rows(sess) == crate::model::keys_from(st.kv, prefix@).map_values(
                |k: Seq<char>| seq![Cell::Text(k), Cell::Text(st.kv[k])],
            )
        }),
{
    let plan = PrefixPlan { prefix };
    let s0 = session(st);
    let q0 = Request::Borrow(Query::KvPrefix);
    lemma_modelled_ask(plan, PrefixState::Start, Reply::Accepted, s0, replies, PrefixState::Borrow, q0);
    let r1 = replies.drop_first();
    let s1 = after(s0, q0);
    let q1 = Request::BindText(1, prefix);
    lemma_modelled_ask(plan, PrefixState::Borrow, replies[0], s1, r1, PrefixState::Bind, q1);
    lemma_modelled_finish(plan, PrefixState::Bind, r1[0], after(s1, q1), r1.drop_first(),
        Ok::<(), Error>(()));
}

/// One step of a key-value cursor hands out the next entry while its key
/// has the prefix, and ends the scan at the first key without it: where
/// SQLite answers as the session `sess` does, with a statement in use that
/// only reads and whose row at its position holds `key` and `value`,
/// `ScanPlan` gives that entry where `key` starts with the prefix and
/// `Beyond(key)` where it does not, moving on by one row; past the last row
/// it gives `Exhausted`.
pub proof fn law_scan_step(
    prefix: &str,
    sess: Session,
    key: Seq<char>,
    value: Seq<char>,
    replies: Seq<Reply>,
)
    requires
        sess.query matches Some(q) && q != Query::KvInsert && q != Query::LogInsert,
        sess.done < rows(sess).len() ==> rows(sess)[sess.done as int] == seq![
            Cell::Text(key),
            Cell::Text(value),
        ],
        modelled(ScanPlan { prefix }, ScanState::Start, Reply::Accepted, sess, replies) is Some,
    ensures
        rows(modelled(ScanPlan { prefix }, ScanState::Start, Reply::Accepted, sess, replies)->0) == rows(
            sess,
        ),
        modelled(ScanPlan { prefix }, ScanState::Start, Reply::Accepted, sess, replies)->0.store
            == sess.store,
        sess.done >= rows(sess).len() ==> yields(
            ScanPlan { prefix },
            ScanState::Start,
            Reply::Accepted,
            replies,
        ) == Some(ScanStep::Exhausted),
        sess.done < rows(sess).len() ==> {
            &&& prefix@.is_prefix_of(key) ==> (yields(ScanPlan { prefix }, ScanState::Start, Reply::Accepted, replies)
                matches Some(ScanStep::Entry(k, v)) && k@ == key && v@ == value)
            &&& !prefix@.is_prefix_of(key) ==> (yields(ScanPlan { prefix }, ScanState::Start, Reply::Accepted, replies)
                matches Some(ScanStep::Beyond(k)) && k@ == key)
            &&& modelled(ScanPlan { prefix }, ScanState::Start, Reply::Accepted, sess, replies)->0.done
                == sess.done + 1
        },
{
    let plan = ScanPlan { prefix };
    lemma_modelled_ask(plan, ScanState::Start, Reply::Accepted, sess, replies, ScanState::Step, Request::Step);
    let r1 = replies.drop_first();
    let s1 = after(sess, Request::Step);
    assert(rows(s1) == rows(sess));
    if sess.done >= rows(sess).len() {
        assert(replies[0] == Reply::Stepped(Step::Done));
        lemma_modelled_finish(plan, ScanState::Step, replies[0], s1, r1, ScanStep::Exhausted);
    } else {
        assert(replies[0] == Reply::Stepped(Step::Row));
        let q1 = Request::ReadText(0);
        lemma_modelled_ask(plan, ScanState::Step, replies[0], s1, r1, ScanState::ReadKey, q1);
        let r2 = r1.drop_first();
        assert(r1[0] is Text && r1[0]->Text_0@ == key);
        let k = r1[0]->Text_0;
        if prefix@.is_prefix_of(key) {
            let q2 = Request::ReadText(1);
            lemma_modelled_ask(plan, ScanState::ReadKey, r1[0], s1, r2, ScanState::ReadValue(k), q2);
            assert(r2[0] is Text && r2[0]->Text_0@ == value);
            lemma_modelled_finish(plan, ScanState::ReadValue(k), r2[0], s1, r2.drop_first(),
                ScanStep::Entry(k, r2[0]->Text_0));
        } else {
            lemma_modelled_finish(plan, ScanState::ReadKey, r1[0], s1, r2, ScanStep::Beyond(k));
        }
    }
}

/// What the setup statements do to a file's contents: the pragmas and the
/// tables leave them as they are, and a stamp statement sets the stamp.
proof fn lemma_setup_statements(st: Store, kind: StoreKind)
    ensures
        executed(st, TRUSTED_SCHEMA_SQL) == st,
        executed(st, FOREIGN_KEYS_SQL) == st,
        executed(st, create_sql(kind)) == st,
        executed(st, stamp_sql(kind)) == (Store { stamp: store_stamp(kind), ..st }),
{
    reveal_strlit("PRAGMA trusted_schema = 0;");
    reveal_strlit("PRAGMA foreign_keys = 1;");
    reveal_strlit("DELETE FROM sql_hummus_0_kv");
    reveal_strlit("DELETE FROM sql_hummus_0_log");
    reveal_strlit("PRAGMA user_version = 1783402338");
    reveal_strlit("PRAGMA user_version = 756530437");
    reveal_strlit(
        "CREATE TABLE IF NOT EXISTS sql_hummus_0_kv (key TEXT PRIMARY KEY NOT NULL, value TEXT) WITHOUT ROWID;",
    );
    reveal_strlit(
        "CREATE TABLE IF NOT EXISTS sql_hummus_0_log (idx INTEGER PRIMARY KEY NOT NULL, ulid TEXT NOT NULL UNIQUE, value TEXT)",
    );
    assert(TRUSTED_SCHEMA_SQL@.len() == 26 && FOREIGN_KEYS_SQL@.len() == 24);
    assert(KV_CLEAR_SQL@.len() == 27 && LOG_CLEAR_SQL@.len() == 28);
    assert(KV_STAMP_SQL@.len() == 32 && LOG_STAMP_SQL@.len() == 31);
    assert(KV_CREATE_TABLE_SQL@.len() > 40 && LOG_CREATE_TABLE_SQL@.len() > 40);
}

/// Opening a file as a store checks its stamp: where SQLite answers as the
/// file `st` does, `SetupPlan` refuses a file whose stamp belongs to
/// neither a new file nor a store of `kind` (`ForeignStamp`), leaving it as
/// it was; any other file it sets up, leaving it stamped as a store of
/// `kind` (a new file gets the stamp, a stamped one keeps it) with its
/// entries and rows as they were.
pub proof fn law_setup(kind: StoreKind, st: Store, replies: Seq<Reply>)
    requires
        modelled(SetupPlan { kind }, SetupState::Start, Reply::Accepted, session(st), replies) is Some,
    ensures
        stamp_verdict(kind, st.stamp) is None ==> {
            &&& yields(SetupPlan { kind }, SetupState::Start, Reply::Accepted, replies) == Some(
                Err::<(), SetupFailure>(SetupFailure::ForeignStamp),
            )
            &&& modelled(SetupPlan { kind }, SetupState::Start, Reply::Accepted, session(st), replies)->0.store
                == st
        },
        stamp_verdict(kind, st.stamp) is Some ==> {
            &&& yields(SetupPlan { kind }, SetupState::Start, Reply::Accepted, replies) == Some(
                Ok::<(), SetupFailure>(()),
            )
            &&& modelled(SetupPlan { kind }, SetupState::Start, Reply::Accepted, session(st), replies)->0.store
                == (Store { stamp: store_stamp(kind), ..st })
        },
{
    let plan = SetupPlan { kind };
    lemma_setup_statements(st, kind);
    let s0 = session(st);
    let q0 = Request::Execute(TRUSTED_SCHEMA_SQL);
    lemma_modelled_ask(plan, SetupState::Start, Reply::Accepted, s0, replies, SetupState::TrustedSchema, q0);
    let r1 = replies.drop_first();
    let q1 = Request::Execute(FOREIGN_KEYS_SQL);
    lemma_modelled_ask(plan, SetupState::TrustedSchema, replies[0], s0, r1, SetupState::ForeignKeys, q1);
    let r2 = r1.drop_first();
    let q2 = Request::Prepare(Query::UserVersion);
    lemma_modelled_ask(plan, SetupState::ForeignKeys, r1[0], s0, r2, SetupState::PrepareStamp, q2);
    let r3 = r2.drop_first();
    let q3 = Request::Borrow(Query::UserVersion);
    lemma_modelled_ask(plan, SetupState::PrepareStamp, r2[0], s0, r3, SetupState::BorrowStamp, q3);
    let r4 = r3.drop_first();
    let s4 = after(s0, q3);
    lemma_modelled_ask(plan, SetupState::BorrowStamp, r3[0], s4, r4, SetupState::StepStamp, Request::Step);
    let r5 = r4.drop_first();
    let s5 = after(s4, Request::Step);
    assert(r4[0] == Reply::Stepped(Step::Row));
    let q5 = Request::ReadInt(0);
    lemma_modelled_ask(plan, SetupState::StepStamp, r4[0], s5, r5, SetupState::ReadStamp, q5);
    let r6 = r5.drop_first();
    assert(r5[0] == Reply::Int(st.stamp));
    assert(s5.store == st);
    match stamp_verdict(kind, st.stamp) {
        None => {
            lemma_modelled_finish(plan, SetupState::ReadStamp, r5[0], s5, r6,
                Err::<(), SetupFailure>(SetupFailure::ForeignStamp));
        },
        Some(new_file) => {
            let q6 = Request::Drop(Query::UserVersion);
            lemma_modelled_ask(plan, SetupState::ReadStamp, r5[0], s5, r6, SetupState::DropStamp(new_file), q6);
            let r7 = r6.drop_first();
            let queries = store_queries(kind);
            let s8 = if new_file {
                let q7 = Request::Execute(create_sql(kind));
                lemma_modelled_ask(plan, SetupState::DropStamp(new_file), r6[0], s5, r7, SetupState::Create, q7);
                let r8 = r7.drop_first();
                let q8 = Request::Execute(stamp_sql(kind));
                lemma_modelled_ask(plan, SetupState::Create, r7[0], s5, r8, SetupState::Stamp, q8);
                let s8 = after(s5, q8);
                lemma_modelled_ask(plan, SetupState::Stamp, r8[0], s8, r8.drop_first(),
                    SetupState::PrepareQuery(0), Request::Prepare(queries[0]));
                s8
            } else {
                lemma_modelled_ask(plan, SetupState::DropStamp(new_file), r6[0], s5, r7,
                    SetupState::PrepareQuery(0), Request::Prepare(queries[0]));
                s5
            };
            assert(s8.store == (Store { stamp: store_stamp(kind), ..st }));
            let rp = if new_file { r7.drop_first().drop_first() } else { r7 };
            assert(modelled(plan, SetupState::PrepareQuery(0), rp[0], s8, rp.drop_first()) is Some);
            lemma_prepare_queries(kind, s8, rp[0], rp.drop_first(), 0);
        },
    }
}

/// The queries a setup prepares, from the one at `i` on, leave the session
/// as it is and end the setup well.
proof fn lemma_prepare_queries(kind: StoreKind, sess: Session, reply: Reply, replies: Seq<Reply>, i: usize)
    requires
        i < store_queries(kind).len(),
        reply is Accepted,
        modelled(SetupPlan { kind }, SetupState::PrepareQuery(i), reply, sess, replies) is Some,
    ensures
        yields(SetupPlan { kind }, SetupState::PrepareQuery(i), reply, replies) == Some(
            Ok::<(), SetupFailure>(()),
        ),
        modelled(SetupPlan { kind }, SetupState::PrepareQuery(i), reply, sess, replies) == Some(sess),
    decreases store_queries(kind).len() - i,
{
    let plan = SetupPlan { kind };
    let queries = store_queries(kind);
    if i + 1 < queries.len() {
        let q = Request::Prepare(queries[i + 1]);
        lemma_modelled_ask(plan, SetupState::PrepareQuery(i), reply, sess, replies,
            SetupState::PrepareQuery((i + 1) as usize), q);
        lemma_prepare_queries(kind, sess, replies[0], replies.drop_first(), (i + 1) as usize);
    } else {
        lemma_modelled_finish(plan, SetupState::PrepareQuery(i), reply, sess, replies,
            Ok::<(), SetupFailure>(()));
    }
}

/// `clear` on a log file empties it of rows: where SQLite answers as the
/// file `st` does, running `DELETE FROM sql_hummus_0_log` succeeds and
/// leaves no row, and the rest of the file as it was.
pub proof fn law_clear_log(st: Store, replies: Seq<Reply>)
    requires
        modelled(ExecutePlan { sql: LOG_CLEAR_SQL }, ExecuteState::Start, Reply::Accepted, session(st), replies)
            is Some,
    ensures
        yields(ExecutePlan { sql: LOG_CLEAR_SQL }, ExecuteState::Start, Reply::Accepted, replies) == Some(
            Ok::<(), crate::db::SqliteError>(()),
        ),
        modelled(ExecutePlan { sql: LOG_CLEAR_SQL }, ExecuteState::Start, Reply::Accepted, session(st), replies)->0.store
            == (Store { log: Seq::empty(), ..st }),
{
    reveal_strlit("DELETE FROM sql_hummus_0_kv");
    reveal_strlit("DELETE FROM sql_hummus_0_log");
    assert(KV_CLEAR_SQL@.len() != LOG_CLEAR_SQL@.len());
    let plan = ExecutePlan { sql: LOG_CLEAR_SQL };
    let q0 = Request::Execute(LOG_CLEAR_SQL);
    lemma_modelled_ask(plan, ExecuteState::Start, Reply::Accepted, session(st), replies, ExecuteState::Sent, q0);
    lemma_modelled_finish(plan, ExecuteState::Sent, replies[0], after(session(st), q0), replies.drop_first(),
        Ok::<(), crate::db::SqliteError>(()));
}

/// `iter` starts a walk of the log in ULID order: where SQLite answers as
/// the file `st` does, borrowing the iteration query succeeds and leaves it
/// in use and not yet stepped, so that its rows are the log's rows in the
/// order of their ULID texts (and `law_cursor_walk` then gives them all).
pub proof fn law_iter_start(st: Store, replies: Seq<Reply>)
    requires
        modelled(BorrowPlan { query: Query::LogIter }, ExecuteState::Start, Reply::Accepted, session(st), replies)
            is Some,
    ensures
        yields(BorrowPlan { query: Query::LogIter }, ExecuteState::Start, Reply::Accepted, replies) == Some(
            Ok::<(), crate::db::SqliteError>(()),
        ),
        ({
            let sess = modelled(BorrowPlan { query: Query::LogIter }, ExecuteState::Start, Reply::Accepted, session(st), replies)->0;
            &&& sess.store == st
            &&& sess.query == Some(Query::LogIter)
            &&& sess.done == 0
            &&& rows(sess) == crate::model::ulid_order(st.log).map_values(|r: LogRow| log_cells(r))
        }),
{
    let plan = BorrowPlan { query: Query::LogIter };
    let q0 = Request::Borrow(Query::LogIter);
    lemma_modelled_ask(plan, ExecuteState::Start, Reply::Accepted, session(st), replies, ExecuteState::Sent, q0);
    lemma_modelled_finish(plan, ExecuteState::Sent, replies[0], after(session(st), q0), replies.drop_first(),
        Ok::<(), crate::db::SqliteError>(()));
}

} // verus!
