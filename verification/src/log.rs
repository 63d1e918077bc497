//! Log files: append-only lists of text elements in an SQLite database,
//! each with an index that counts up and a ULID that records when it was
//! written.
use vstd::prelude::*;

use crate::db::{self, SqliteError, Step};
use crate::error::{Cookie, Error, ErrorKind, Result};
use crate::ids::{
    decode_ulid, encode_ulid, generate_ulid, millis_bits, ulid_at, ulid_decode, ulid_encode, ulid_millis,
};
use crate::kv::{kv_stamp_verdict, KV_USER_VERSION, KV_USER_VERSION_I64};
use crate::plan::{
    can_yield, run, run_setup, BorrowPlan, ExecutePlan, Move, Plan, Prepared, Query, Reply, Request,
    SetupFailure, SetupPlan, StoreKind, LOG_CLEAR_SQL,
};

verus! {

/// The schema stamp (`PRAGMA user_version`) of a log file.
pub const LOG_USER_VERSION: u32 = 756530437u32;

/// The schema stamp of a log file, as SQLite reports it.
pub const LOG_USER_VERSION_I64: i64 = 756530437i64;

/// The table that holds the elements.
pub const LOG_TABLE_NAME: &'static str = "sql_hummus_0_log";

pub const NO_VERSION_ROW: &'static str = "Expected one row from PRAGMA user_version";

pub const NOT_A_LOG_FILE: &'static str = "PRAGMA user_version looks like a non-KV file";

pub const INDEX_MISMATCH: &'static str = "Log::get didn't get the same index back from the DB";

pub const INSERT_NO_ROW: &'static str = "We didn't get State::Row during Log::insert";

pub const INSERT_NOT_DONE: &'static str = "We didn't get State::Done during Log::insert";

pub const COOKIE_BORROW: &'static str = "KPQL7L2G
        ";

pub const COOKIE_BIND_TIME: &'static str = "7RMQCY4N";

pub const COOKIE_BIND_VALUE: &'static str = "AGRZOZBD";

pub const COOKIE_STEP_ROW: &'static str = "WEMNOGO7";

pub const COOKIE_READ_INDEX: &'static str = "MEJYJBDW";

pub const COOKIE_STEP_DONE: &'static str = "QOV7GD47";

pub const COOKIE_PUSH: &'static str = "6JEUVGMI";

/// A log file.
///
/// Its operations run plans (see `plan`); their contracts state each
/// plan's steps, and of the operations themselves only that the result is
/// one the plan can give for some replies from SQLite.
pub struct Log {
    inner: sql_peas::Connection,
    prepared: Prepared,
}

/// The elements of a log file, in ULID order.
pub struct LogCursor<'a> {
    log: &'a Log,
    stmt: &'a sql_peas::Statement,
    /// The last step found no row left.
    exhausted: bool,
    /// SQLite failed on an earlier step.
    failed: bool,
}

/// A single log entry within the log database.
///
/// Called "Element" to match `Vec`.
#[derive(Debug)]
pub struct Element {
    /// Incrementing index within the file, e.g. 1, 2, 3, 4...
    pub index: i64,
    /// ULID recorded at some point before the database transaction
    /// committed.
    pub ulid: u128,
    pub value: String,
}

impl Element {
    /// The ULID in its 26-character text form.
    pub fn ulid_string(&self) -> (r: String)
        ensures
            r@ == crate::ids::ulid_encode(self.ulid),
    {
        encode_ulid(self.ulid)
    }
}

/// The failures that `Log::push_inner` can report: an SQLite failure with
/// the cookie of the step where it came, or a step that did not go as an
/// insert does.
pub open spec fn push_failure(e: Error) -> bool {
    ||| {
        &&& e.kind() is Sqlite
        &&& {
            ||| e.cookies() == seq![COOKIE_BORROW]
            ||| e.cookies() == seq![COOKIE_BIND_TIME]
            ||| e.cookies() == seq![COOKIE_BIND_VALUE]
            ||| e.cookies() == seq![COOKIE_STEP_ROW]
            ||| e.cookies() == seq![COOKIE_READ_INDEX]
            ||| e.cookies() == seq![COOKIE_STEP_DONE]
        }
    }
    ||| {
        &&& e.cookies() == Seq::<&'static str>::empty()
        &&& (e.kind() == ErrorKind::Str(INSERT_NO_ROW) || e.kind() == ErrorKind::Str(
            INSERT_NOT_DONE,
        ))
    }
}

/// Whether a file with schema stamp `user_version` needs setting up as a
/// log file: yes when it is new (stamp 0), no when it is one already, and
/// `None` when it is some other kind of file.
pub open spec fn log_stamp_verdict(user_version: i64) -> Option<bool> {
    if user_version == 0 {
        Some(true)
    } else if user_version == LOG_USER_VERSION_I64 {
        Some(false)
    } else {
        None
    }
}

/// A file of one kind is refused as the other, while a new file can become
/// either: the stamps of the two kinds differ from each other and from the
/// blank stamp of a new file. Each stamp is also the `u32` written into the
/// file, as SQLite reads it back.
pub proof fn lemma_file_kinds_told_apart(user_version: i64)
    ensures
        kv_stamp_verdict(user_version) == Some(false) ==> log_stamp_verdict(user_version) is None,
        log_stamp_verdict(user_version) == Some(false) ==> kv_stamp_verdict(user_version) is None,
        kv_stamp_verdict(user_version) == Some(true) <==> log_stamp_verdict(user_version) == Some(
            true,
        ),
        KV_USER_VERSION_I64 == KV_USER_VERSION as i64,
        LOG_USER_VERSION_I64 == LOG_USER_VERSION as i64,
{
}

/// The error of a log file that could not be set up.
pub open spec fn setup_kind(f: SetupFailure) -> ErrorKind {
    match f {
        SetupFailure::Sqlite(e) => ErrorKind::Sqlite(e),
        SetupFailure::NoStampRow => ErrorKind::Str(NO_VERSION_ROW),
        SetupFailure::ForeignStamp => ErrorKind::Str(NOT_A_LOG_FILE),
    }
}

/// The error of a log file that could not be set up: a missing stamp row
/// and a foreign stamp get their messages; no cookies.
pub fn setup_failure_error(f: SetupFailure) -> (e: Error)
    ensures
        e.kind() == setup_kind(f),
        e.cookies() == Seq::<&'static str>::empty(),
{
    match f {
        SetupFailure::Sqlite(e) => Error::from_sqlite(e),
        SetupFailure::NoStampRow => Error::from_message(NO_VERSION_ROW),
        SetupFailure::ForeignStamp => Error::from_message(NOT_A_LOG_FILE),
    }
}

/// Where a `LogGetPlan` stands: which request it awaits the reply to, with
/// the ULID once decoded.
#[derive(Clone, Copy, Debug, PartialEq, Eq, Structural)]
pub enum LogGetState {
    Start,
    Borrow,
    Bind,
    Step,
    ReadIndex,
    ReadUlid,
    ReadValue(u128),
}

/// Reads the element at an index: the get query with the index at
/// parameter 1; no row means no element; a row must hold the index asked
/// for in column 0, the ULID text in column 1 and the value in column 2.
pub struct LogGetPlan {
    pub index: i64,
}

/// The move of a `LogGetPlan` in state `s` on `reply`.
pub open spec fn log_get_move<'a>(index: i64, s: LogGetState, reply: Reply) -> Move<
    'a,
    LogGetState,
    core::result::Result<Option<Element>, ErrorKind>,
> {
    if s == LogGetState::Start {
        Move::Ask(LogGetState::Borrow, Request::Borrow(Query::LogGet))
    } else if reply is Failed {
        Move::Finish(Err(ErrorKind::Sqlite(reply->Failed_0)))
    } else {
        match s {
            LogGetState::Borrow => Move::Ask(LogGetState::Bind, Request::BindInt(1, index)),
            LogGetState::Bind => Move::Ask(LogGetState::Step, Request::Step),
            LogGetState::Step => if reply == Reply::Stepped(Step::Row) {
                Move::Ask(LogGetState::ReadIndex, Request::ReadInt(0))
            } else {
                Move::Finish(Ok(None))
            },
            LogGetState::ReadIndex => if reply->Int_0 == index {
                Move::Ask(LogGetState::ReadUlid, Request::ReadText(1))
            } else {
                Move::Finish(Err(ErrorKind::Str(INDEX_MISMATCH)))
            },
            LogGetState::ReadUlid => match ulid_decode(reply->Text_0@) {
                Ok(ulid) => Move::Ask(LogGetState::ReadValue(ulid), Request::ReadText(2)),
                Err(k) => Move::Finish(Err(ErrorKind::UlidDecode(k))),
            },
            LogGetState::ReadValue(ulid) => Move::Finish(
                Ok(Some(Element { index, ulid, value: reply->Text_0 })),
            ),
            _ => Move::Finish(Ok(None)),
        }
    }
}

impl<'a> Plan<'a> for LogGetPlan {
    type State = LogGetState;

    type Output = core::result::Result<Option<Element>, ErrorKind>;

    open spec fn rank(&self, s: LogGetState) -> nat {
        match s {
            LogGetState::Start => 6,
            LogGetState::Borrow => 5,
            LogGetState::Bind => 4,
            LogGetState::Step => 3,
            LogGetState::ReadIndex => 2,
            LogGetState::ReadUlid => 1,
            LogGetState::ReadValue(_) => 0,
        }
    }

    open spec fn expects(&self, s: LogGetState, reply: Reply) -> bool {
        match s {
            LogGetState::Start => reply is Accepted,
            LogGetState::Step => reply is Stepped || reply is Failed,
            LogGetState::ReadIndex => reply is Int || reply is Failed,
            LogGetState::ReadUlid | LogGetState::ReadValue(_) => reply is Text || reply is Failed,
            _ => reply is Accepted || reply is Failed,
        }
    }

    open spec fn sound(&self, out: core::result::Result<Option<Element>, ErrorKind>) -> bool {
        match out {
            Ok(Some(element)) => element.index == self.index,
            Ok(None) => true,
            Err(k) => k is Sqlite || k is UlidDecode || k == ErrorKind::Str(INDEX_MISMATCH),
        }
    }

    open spec fn initial(&self) -> LogGetState {
        LogGetState::Start
    }

    open spec fn holds_statement(&self, s: Self::State) -> bool {
        false
    }

    open spec fn needs_statement(&self, out: Self::Output) -> bool {
        false
    }

    open spec fn next(&self, s: LogGetState, reply: Reply) -> Move<'a, LogGetState, core::result::Result<Option<Element>, ErrorKind>> {
        log_get_move(self.index, s, reply)
    }

    fn start(&self) -> (s: LogGetState) {
        LogGetState::Start
    }

    fn advance(&self, s: LogGetState, reply: Reply) -> (m: Move<'a, LogGetState, core::result::Result<Option<Element>, ErrorKind>>)
    {
        if s == LogGetState::Start {
            return Move::Ask(LogGetState::Borrow, Request::Borrow(Query::LogGet));
        }
        match reply {
            Reply::Failed(e) => Move::Finish(Err(ErrorKind::Sqlite(e))),
            Reply::Stepped(Step::Row) => Move::Ask(LogGetState::ReadIndex, Request::ReadInt(0)),
            Reply::Stepped(Step::Done) => Move::Finish(Ok(None)),
            Reply::Int(stored) => if stored == self.index {
                Move::Ask(LogGetState::ReadUlid, Request::ReadText(1))
            } else {
                Move::Finish(Err(ErrorKind::Str(INDEX_MISMATCH)))
            },
            Reply::Text(text) => match s {
                LogGetState::ReadValue(ulid) => Move::Finish(
                    Ok(Some(Element { index: self.index, ulid, value: text })),
                ),
                _ => match decode_ulid(text.as_str()) {
                    Ok(ulid) => Move::Ask(LogGetState::ReadValue(ulid), Request::ReadText(2)),
                    Err(k) => Move::Finish(Err(ErrorKind::UlidDecode(k))),
                },
            },
            Reply::Accepted => if s == LogGetState::Borrow {
                Move::Ask(LogGetState::Bind, Request::BindInt(1, self.index))
            } else {
                Move::Ask(LogGetState::Step, Request::Step)
            },
        }
    }
}

/// Where a `RowPlan` stands: which request it awaits the reply to, with
/// the index and ULID once read.
#[derive(Clone, Copy, Debug, PartialEq, Eq, Structural)]
pub enum RowState {
    Start,
    Step,
    ReadIndex,
    ReadUlid(i64),
    ReadValue(i64, u128),
}

/// Reads the next element from the statement in use: step it; a row holds
/// the index in column 0, the ULID text in column 1 and the value in
/// column 2; no row means no element.
pub struct RowPlan;

/// The move of a `RowPlan` in state `s` on `reply`.
pub open spec fn row_move<'a>(s: RowState, reply: Reply) -> Move<
    'a,
    RowState,
    Option<core::result::Result<Element, ErrorKind>>,
> {
    if s == RowState::Start {
        Move::Ask(RowState::Step, Request::Step)
    } else if reply is Failed {
        Move::Finish(Some(Err(ErrorKind::Sqlite(reply->Failed_0))))
    } else {
        match s {
            RowState::Step => if reply == Reply::Stepped(Step::Row) {
                Move::Ask(RowState::ReadIndex, Request::ReadInt(0))
            } else {
                Move::Finish(None)
            },
            RowState::ReadIndex => Move::Ask(RowState::ReadUlid(reply->Int_0), Request::ReadText(1)),
            RowState::ReadUlid(index) => match ulid_decode(reply->Text_0@) {
                Ok(ulid) => Move::Ask(RowState::ReadValue(index, ulid), Request::ReadText(2)),
                Err(k) => Move::Finish(Some(Err(ErrorKind::UlidDecode(k)))),
            },
            RowState::ReadValue(index, ulid) => Move::Finish(
                Some(Ok(Element { index, ulid, value: reply->Text_0 })),
            ),
            _ => Move::Finish(None),
        }
    }
}

impl<'a> Plan<'a> for RowPlan {
    type State = RowState;

    type Output = Option<core::result::Result<Element, ErrorKind>>;

    open spec fn rank(&self, s: RowState) -> nat {
        match s {
            RowState::Start => 4,
            RowState::Step => 3,
            RowState::ReadIndex => 2,
            RowState::ReadUlid(_) => 1,
            RowState::ReadValue(_, _) => 0,
        }
    }

    open spec fn expects(&self, s: RowState, reply: Reply) -> bool {
        match s {
            RowState::Start => reply is Accepted,
            RowState::Step => reply is Stepped || reply is Failed,
            RowState::ReadIndex => reply is Int || reply is Failed,
            _ => reply is Text || reply is Failed,
        }
    }

    open spec fn sound(&self, out: Option<core::result::Result<Element, ErrorKind>>) -> bool {
        out matches Some(Err(k)) ==> k is Sqlite || k is UlidDecode
    }

    open spec fn initial(&self) -> RowState {
        RowState::Start
    }

    open spec fn holds_statement(&self, s: Self::State) -> bool {
        false
    }

    open spec fn needs_statement(&self, out: Self::Output) -> bool {
        false
    }

    open spec fn next(&self, s: RowState, reply: Reply) -> Move<'a, RowState, Option<core::result::Result<Element, ErrorKind>>> {
        row_move(s, reply)
    }

    fn start(&self) -> (s: RowState) {
        RowState::Start
    }

    fn advance(&self, s: RowState, reply: Reply) -> (m: Move<'a, RowState, Option<core::result::Result<Element, ErrorKind>>>)
    {
        if s == RowState::Start {
            return Move::Ask(RowState::Step, Request::Step);
        }
        match reply {
            Reply::Failed(e) => Move::Finish(Some(Err(ErrorKind::Sqlite(e)))),
            Reply::Stepped(Step::Row) => Move::Ask(RowState::ReadIndex, Request::ReadInt(0)),
            Reply::Int(index) => Move::Ask(RowState::ReadUlid(index), Request::ReadText(1)),
            Reply::Text(text) => match s {
                RowState::ReadValue(index, ulid) => Move::Finish(
                    Some(Ok(Element { index, ulid, value: text })),
                ),
                RowState::ReadUlid(index) => match decode_ulid(text.as_str()) {
                    Ok(ulid) => Move::Ask(RowState::ReadValue(index, ulid), Request::ReadText(2)),
                    Err(k) => Move::Finish(Some(Err(ErrorKind::UlidDecode(k)))),
                },
                _ => Move::Finish(None),
            },
            _ => Move::Finish(None),
        }
    }
}

/// Where a `PushPlan` stands: which request it awaits the reply to, with
/// the index once read.
#[derive(Clone, Copy, Debug, PartialEq, Eq, Structural)]
pub enum PushState {
    Start,
    Borrow,
    BindTime,
    BindValue,
    StepRow,
    ReadIndex,
    StepDone(i64),
}

/// Appends an element: the insert query with the ULID text at parameter 1
/// and the value at 2; its first step must give a row, whose column 0 is
/// the new index, and its second must finish it. An SQLite failure comes
/// with the cookie of the request it answered.
pub struct PushPlan<'a> {
    pub ts: &'a str,
    pub value: &'a str,
}

/// The cookie of the request that a `PushPlan` awaits the reply to in `s`.
pub open spec fn push_cookie(s: PushState) -> &'static str {
    match s {
        PushState::Borrow => COOKIE_BORROW,
        PushState::BindTime => COOKIE_BIND_TIME,
        PushState::BindValue => COOKIE_BIND_VALUE,
        PushState::StepRow => COOKIE_STEP_ROW,
        PushState::ReadIndex => COOKIE_READ_INDEX,
        _ => COOKIE_STEP_DONE,
    }
}

fn cookie_of(s: PushState) -> (c: &'static str)
    ensures
        c == push_cookie(s),
{
    match s {
        PushState::Borrow => COOKIE_BORROW,
        PushState::BindTime => COOKIE_BIND_TIME,
        PushState::BindValue => COOKIE_BIND_VALUE,
        PushState::StepRow => COOKIE_STEP_ROW,
        PushState::ReadIndex => COOKIE_READ_INDEX,
        _ => COOKIE_STEP_DONE,
    }
}

/// The move of a `PushPlan` in state `s` on `reply`.
pub open spec fn push_move<'a>(ts: &'a str, value: &'a str, s: PushState, reply: Reply) -> Move<
    'a,
    PushState,
    core::result::Result<i64, (ErrorKind, Option<&'static str>)>,
> {
    if s == PushState::Start {
        Move::Ask(PushState::Borrow, Request::Borrow(Query::LogInsert))
    } else if reply is Failed {
        Move::Finish(Err((ErrorKind::Sqlite(reply->Failed_0), Some(push_cookie(s)))))
    } else {
        match s {
            PushState::Borrow => Move::Ask(PushState::BindTime, Request::BindText(1, ts)),
            PushState::BindTime => Move::Ask(PushState::BindValue, Request::BindText(2, value)),
            PushState::BindValue => Move::Ask(PushState::StepRow, Request::Step),
            PushState::StepRow => if reply == Reply::Stepped(Step::Row) {
                Move::Ask(PushState::ReadIndex, Request::ReadInt(0))
            } else {
                Move::Finish(Err((ErrorKind::Str(INSERT_NO_ROW), None)))
            },
            PushState::ReadIndex => Move::Ask(PushState::StepDone(reply->Int_0), Request::Step),
            PushState::StepDone(index) => if reply == Reply::Stepped(Step::Done) {
                Move::Finish(Ok(index))
            } else {
                Move::Finish(Err((ErrorKind::Str(INSERT_NOT_DONE), None)))
            },
            _ => Move::Finish(Ok(0)),
        }
    }
}

/// A failure of a `PushPlan`: an SQLite failure with one of its cookies,
/// or a step that did not go as an insert does, with none.
pub open spec fn push_plan_failure(f: (ErrorKind, Option<&'static str>)) -> bool {
    ||| {
        &&& f.0 is Sqlite
        &&& {
            ||| f.1 == Some(COOKIE_BORROW)
            ||| f.1 == Some(COOKIE_BIND_TIME)
            ||| f.1 == Some(COOKIE_BIND_VALUE)
            ||| f.1 == Some(COOKIE_STEP_ROW)
            ||| f.1 == Some(COOKIE_READ_INDEX)
            ||| f.1 == Some(COOKIE_STEP_DONE)
        }
    }
    ||| {
        &&& f.1 is None
        &&& (f.0 == ErrorKind::Str(INSERT_NO_ROW) || f.0 == ErrorKind::Str(INSERT_NOT_DONE))
    }
}

impl<'a> Plan<'a> for PushPlan<'a> {
    type State = PushState;

    type Output = core::result::Result<i64, (ErrorKind, Option<&'static str>)>;

    open spec fn rank(&self, s: PushState) -> nat {
        match s {
            PushState::Start => 6,
            PushState::Borrow => 5,
            PushState::BindTime => 4,
            PushState::BindValue => 3,
            PushState::StepRow => 2,
            PushState::ReadIndex => 1,
            PushState::StepDone(_) => 0,
        }
    }

    open spec fn expects(&self, s: PushState, reply: Reply) -> bool {
        match s {
            PushState::Start => reply is Accepted,
            PushState::StepRow | PushState::StepDone(_) => reply is Stepped || reply is Failed,
            PushState::ReadIndex => reply is Int || reply is Failed,
            _ => reply is Accepted || reply is Failed,
        }
    }

    open spec fn sound(&self, out: core::result::Result<i64, (ErrorKind, Option<&'static str>)>) -> bool {
        out matches Err(f) ==> push_plan_failure(f)
    }

    open spec fn initial(&self) -> PushState {
        PushState::Start
    }

    open spec fn holds_statement(&self, s: Self::State) -> bool {
        false
    }

    open spec fn needs_statement(&self, out: Self::Output) -> bool {
        false
    }

    open spec fn next(&self, s: PushState, reply: Reply) -> Move<'a, PushState, core::result::Result<i64, (ErrorKind, Option<&'static str>)>> {
        push_move(self.ts, self.value, s, reply)
    }

    fn start(&self) -> (s: PushState) {
        PushState::Start
    }

    fn advance(&self, s: PushState, reply: Reply) -> (m: Move<'a, PushState, core::result::Result<i64, (ErrorKind, Option<&'static str>)>>)
    {
        if s == PushState::Start {
            return Move::Ask(PushState::Borrow, Request::Borrow(Query::LogInsert));
        }
        match reply {
            Reply::Failed(e) => Move::Finish(Err((ErrorKind::Sqlite(e), Some(cookie_of(s))))),
            Reply::Int(index) => Move::Ask(PushState::StepDone(index), Request::Step),
            Reply::Stepped(step) => match s {
                PushState::StepDone(index) => match step {
                    Step::Done => Move::Finish(Ok(index)),
                    Step::Row => Move::Finish(Err((ErrorKind::Str(INSERT_NOT_DONE), None))),
                },
                _ => match step {
                    Step::Row => Move::Ask(PushState::ReadIndex, Request::ReadInt(0)),
                    Step::Done => Move::Finish(Err((ErrorKind::Str(INSERT_NO_ROW), None))),
                },
            },
            _ => match s {
                PushState::Borrow => Move::Ask(PushState::BindTime, Request::BindText(1, self.ts)),
                PushState::BindTime => Move::Ask(PushState::BindValue, Request::BindText(2, self.value)),
                PushState::BindValue => Move::Ask(PushState::StepRow, Request::Step),
                _ => Move::Finish(Ok(0)),
            },
        }
    }
}

impl Log {
    /// Whether a file whose schema stamp is `user_version` still has to be
    /// set up: a new file reads 0, a log file reads its stamp, and any other
    /// stamp belongs to some other kind of file.
    pub fn needs_setup(user_version: i64) -> (r: Result<bool>)
        ensures
            match log_stamp_verdict(user_version) {
                Some(b) => r == Ok::<bool, Error>(b),
                None => r matches Err(e) && e.kind() == ErrorKind::Str(NOT_A_LOG_FILE)
                    && e.cookies() == Seq::<&'static str>::empty(),
            },
    {
        if user_version == 0 {
            Ok(true)
        } else if user_version == LOG_USER_VERSION_I64 {
            Ok(false)
        } else {
            Err(Error::from_message(NOT_A_LOG_FILE))
        }
    }

    /// Opens the log file at `path` and runs `SetupPlan` on it: the
    /// pragmas, the stamp check, the table and stamp of a new file, then the
    /// three queries.
    ///
    /// Fails, with no cookies, with `Str(NOT_A_LOG_FILE)` when the file
    /// carries another schema stamp, with `Str(NO_VERSION_ROW)` when SQLite
    /// reports no stamp, and with `Sqlite` when SQLite fails.
    pub fn new(path: &str) -> (r: Result<Log>)
        ensures
            r matches Err(e) ==> e.cookies() == Seq::<&'static str>::empty() && (e.kind() is Sqlite
                || e.kind() == ErrorKind::Str(NOT_A_LOG_FILE) || e.kind() == ErrorKind::Str(
                NO_VERSION_ROW,
            )),
            r is Ok ==> can_yield((SetupPlan { kind: StoreKind::Log }), Ok::<(), SetupFailure>(())),
            r matches Err(e) ==> (e.kind() is Str ==> exists|f: SetupFailure|
                #[trigger] can_yield((SetupPlan { kind: StoreKind::Log }), Err::<(), SetupFailure>(f))
                    && e.kind() == setup_kind(f)),
    {
        let mut inner = match db::open(path) {
            Ok(c) => c,
            Err(e) => return Err(Error::from_sqlite(e)),
        };
        let mut prepared = Prepared::new();
        let plan = SetupPlan { kind: StoreKind::Log };
        let out = run_setup(&plan, &mut inner, &mut prepared);
        match out {
            Ok(()) => {
                assert(out->Ok_0 == ());
                Ok(Log { inner, prepared })
            },
            Err(f) => Err(setup_failure_error(f)),
        }
    }

    /// Removes every element: runs `DELETE FROM sql_hummus_0_log`.
    pub fn clear(&self) -> (r: Result<()>)
        ensures
            r matches Err(e) ==> e.kind() is Sqlite && e.cookies() == Seq::<&'static str>::empty(),
            exists|o: core::result::Result<(), SqliteError>|
                #[trigger] can_yield((ExecutePlan { sql: LOG_CLEAR_SQL }), o) && match o {
                    Ok(()) => r is Ok,
                    Err(x) => r matches Err(e) && e.kind() == ErrorKind::Sqlite(x),
                },
    {
        match run(&ExecutePlan { sql: LOG_CLEAR_SQL }, &self.inner, &self.prepared, None).0 {
            Ok(()) => Ok(()),
            Err(e) => Err(Error::from_sqlite(e)),
        }
    }

    /// The element at `index`, or `None` where there is none, by
    /// `LogGetPlan`.
    ///
    /// Fails, with no cookies, with `Str(INDEX_MISMATCH)` when SQLite hands
    /// back a row of another index, with `UlidDecode` when the stored ULID
    /// does not decode, and with `Sqlite` when SQLite fails.
    pub fn get_by_index(&self, index: i64) -> (r: Result<Option<Element>>)
        ensures
            r matches Ok(Some(element)) ==> element.index == index,
            r matches Err(e) ==> e.cookies() == Seq::<&'static str>::empty() && (e.kind() is Sqlite
                || e.kind() is UlidDecode || e.kind() == ErrorKind::Str(INDEX_MISMATCH)),
            exists|o: core::result::Result<Option<Element>, ErrorKind>|
                #[trigger] can_yield((LogGetPlan { index }), o) && match o {
                    Ok(found) => r == Ok::<Option<Element>, Error>(found),
                    Err(k) => r matches Err(e) && e.kind() == k,
                },
    {
        match run(&LogGetPlan { index }, &self.inner, &self.prepared, None).0 {
            Ok(found) => Ok(found),
            Err(k) => Err(Error::from_kind(k)),
        }
    }

    /// The elements, in ULID order: the iteration query, through a cursor.
    pub fn iter<'a>(&'a self) -> (r: Result<LogCursor<'a>>)
        ensures
            r matches Ok(cursor) ==> !cursor.ended() && !cursor.failed(),
            r matches Err(e) ==> e.kind() is Sqlite && e.cookies() == Seq::<&'static str>::empty(),
            r is Ok ==> can_yield((BorrowPlan { query: Query::LogIter }), Ok::<(), SqliteError>(())),
            r matches Err(e) ==> exists|x: SqliteError|
                #[trigger] can_yield((BorrowPlan { query: Query::LogIter }), Err::<(), SqliteError>(x))
                    && e.kind() == ErrorKind::Sqlite(x),
    {
        let (out, current) = run(&BorrowPlan { query: Query::LogIter }, &self.inner, &self.prepared, None);
        proof {
            if out is Ok {
                assert(out->Ok_0 == ());
            }
        }
        match out {
            Ok(()) => match current {
                Some(stmt) => Ok(LogCursor { log: self, stmt, exhausted: false, failed: false }),
                // Not reached: the plan ends `Ok` only with its statement in use.
                None => Err(Error::from_sqlite(SqliteError { code: None, message: None })),
            },
            Err(e) => Err(Error::from_sqlite(e)),
        }
    }

    /// Appends `value` with the ULID text `ts`, and returns the index that
    /// SQLite gave the new element, by `PushPlan`.
    pub fn push_inner(&self, ts: &str, value: &str) -> (r: Result<i64>)
        ensures
            r matches Err(e) ==> push_failure(e),
            pushed(ts, value, r),
    {
        match run(&PushPlan { ts, value }, &self.inner, &self.prepared, None).0 {
            Ok(index) => Ok(index),
            Err((kind, cookie)) => Err(Error::with_cookie(kind, cookie)),
        }
    }

    /// Appends `value` with a ULID made from the time `unix_ms`, in
    /// milliseconds since the Unix epoch, in case the user does store their
    /// local time inside the line: the ULID's first 48 bits are that time
    /// (modulo 2^48), the rest are random, and its text is what
    /// `push_inner` is handed.
    pub fn push_with_time(&self, unix_ms: u64, value: &str) -> (r: Result<i64>)
        ensures
            r matches Err(e) ==> push_failure(e),
            exists|text: &str, ulid: u128|
                #[trigger] ulid_encode(ulid) == text@ && ulid_millis(ulid) == millis_bits(unix_ms)
                    && #[trigger] pushed(text, value, r),
    {
        let ulid = ulid_at(unix_ms);
        let text = encode_ulid(ulid);
        self.push_inner(text.as_str(), value)
    }

    /// Appends `value` with a ULID made now: the ULID's text is what
    /// `push_inner` is handed.
    pub fn push(&self, value: &str) -> (r: Result<i64>)
        ensures
            r matches Err(e) ==> e.cookies().len() > 0 && e.cookies().last() == COOKIE_PUSH
                && push_failure_cause(e),
            exists|text: &str, ulid: u128, inner: Result<i64>|
                #[trigger] ulid_encode(ulid) == text@ && #[trigger] pushed(text, value, inner) && match inner {
                    Ok(index) => r == Ok::<i64, Error>(index),
                    Err(e) => r matches Err(f) && f.kind() == e.kind() && f.cookies() == e.cookies().push(
                        COOKIE_PUSH,
                    ),
                },
    {
        let ulid = generate_ulid();
        let text = encode_ulid(ulid);
        self.push_inner(text.as_str(), value).cookie(COOKIE_PUSH)
    }
}

/// `r` is what `Log::push_inner` gives for the ULID text `ts` and `value`:
/// the result of `PushPlan` for some replies from SQLite, its failure
/// carrying the cookie of the request it answered.
pub open spec fn pushed(ts: &str, value: &str, r: Result<i64>) -> bool {
    exists|o: core::result::Result<i64, (ErrorKind, Option<&'static str>)>|
        #[trigger] can_yield((PushPlan { ts, value }), o) && match o {
            Ok(index) => r == Ok::<i64, Error>(index),
            Err((kind, cookie)) => r matches Err(e) && e.kind() == kind && e.cookies() == match cookie {
                Some(c) => seq![c],
                None => Seq::<&'static str>::empty(),
            },
        }
}

/// An error of `Log::push_inner` with one more cookie on its trail.
pub open spec fn push_failure_cause(e: Error) -> bool {
    exists|inner: Error|
        push_failure(inner) && #[trigger] inner.cookies().push(COOKIE_PUSH) == e.cookies()
            && inner.kind() == e.kind()
}

impl<'a> LogCursor<'a> {
    /// The last step found no row left.
    pub closed spec fn ended(&self) -> bool {
        self.exhausted
    }

    /// SQLite failed on an earlier step; the cursor hands out nothing more.
    pub closed spec fn failed(&self) -> bool {
        self.failed
    }

    /// The next element, by one run of `RowPlan`, or `None` where the rows
    /// ran out or SQLite failed on an earlier step.
    ///
    /// Fails, with no cookies, with `UlidDecode` when the stored ULID does
    /// not decode, after which the cursor goes on with the next row, and
    /// with `Sqlite` when SQLite fails, after which it hands out nothing
    /// more.
    pub fn next(&mut self) -> (r: Option<Result<Element>>)
        ensures
            !old(self).failed() ==> exists|o: Option<core::result::Result<Element, ErrorKind>>|
                #[trigger] can_yield(RowPlan, o) && final(self).ended() == (o is None)
                    && final(self).failed() == (o matches Some(Err(k)) && k is Sqlite) && match o {
                    None => r is None,
                    Some(Ok(element)) => r == Some(Ok::<Element, Error>(element)),
                    Some(Err(k)) => r matches Some(Err(e)) && e.kind() == k,
                },
            old(self).failed() ==> r is None && final(self).failed() && final(self).ended()
                == old(self).ended(),
            !old(self).failed() ==> match r {
                None => final(self).ended() && !final(self).failed(),
                Some(Ok(_)) => !final(self).ended() && !final(self).failed(),
                Some(Err(e)) => {
                    &&& e.cookies() == Seq::<&'static str>::empty()
                    &&& (e.kind() is Sqlite || e.kind() is UlidDecode)
                    &&& !final(self).ended()
                    &&& final(self).failed() == e.kind() is Sqlite
                },
            },
    {
        if self.failed {
            return None;
        }
        let out = run(&RowPlan, &self.log.inner, &self.log.prepared, Some(self.stmt)).0;
        let ghost row = out;
        assert(can_yield(RowPlan, row));
        match out {
            None => {
                self.exhausted = true;
                None
            },
            Some(Ok(element)) => {
                self.exhausted = false;
                Some(Ok(element))
            },
            Some(Err(k)) => {
                self.exhausted = false;
                self.failed = match k {
                    ErrorKind::Sqlite(_) => true,
                    _ => false,
                };
                Some(Err(Error::from_kind(k)))
            },
        }
    }
}

} // verus!
