//! Key-value files: a table of text keys and text values in an SQLite
//! database, used like a `BTreeMap<String, String>`.
use vstd::prelude::*;

use crate::db;
use crate::db::{SqliteError, Step};
use crate::plan::{
    can_yield, run, run_setup, ExecutePlan, Move, Plan, Prepared, Query, Reply, Request, SetupFailure,
    SetupPlan, StoreKind, BEGIN_SQL, COMMIT_SQL, KV_CLEAR_SQL, ROLLBACK_SQL,
};
use crate::text::{has_prefix, lemma_prefix_block, text_le};

verus! {

/// The schema stamp (`PRAGMA user_version`) of a key-value file.
pub const KV_USER_VERSION: u32 = 1783402338u32;

/// The schema stamp of a key-value file, as SQLite reports it.
pub const KV_USER_VERSION_I64: i64 = 1783402338i64;

/// The table that holds the entries.
pub const KV_TABLE_NAME: &'static str = "sql_hummus_0_kv";

pub const NO_VERSION_ROW: &'static str = "Expected one row from PRAGMA user_version";

pub const NOT_A_KV_FILE: &'static str = "PRAGMA user_version looks like a non-KV file";

pub const NO_COUNT_ROW: &'static str = "Expected one row here";

pub const DUPLICATE_KEY: &'static str = "Logic error - Two rows in KV table have the same key";

pub const INSERT_NOT_DONE: &'static str = "We didn't get sqlite::State::Done during Kv::insert";

/// An error of a key-value file.
#[derive(Debug)]
pub enum Error {
    /// SQLite reported an error.
    Sqlite(SqliteError),
    /// The file did not behave as a key-value file does.
    Other(&'static str),
}

impl Error {
    /// The message of an `Other` error, or `None` for an SQLite error.
    pub open spec fn message(&self) -> Option<&'static str> {
        match self {
            Error::Sqlite(_) => None,
            Error::Other(m) => Some(*m),
        }
    }
}

/// A key-value file.
///
/// Its operations run plans (see `plan`); their contracts state each
/// plan's steps, and of the operations themselves only that the result is
/// one the plan can give for some replies from SQLite.
pub struct Kv {
    inner: sql_peas::Connection,
    prepared: Prepared,
}

/// The entries of a key-value file whose keys start with a prefix, in key
/// order.
pub struct KvCursor<'a> {
    kv: &'a Kv,
    stmt: &'a sql_peas::Statement,
    prefix: &'a str,
    /// The keys of the rows read so far, the rejected one included.
    keys_read: Ghost<Seq<Seq<char>>>,
    /// The last step found no row left.
    exhausted: bool,
    /// SQLite failed on an earlier step.
    failed: bool,
}

/// The keys at the front of `keys` that start with `p`, up to the first key
/// that does not.
pub open spec fn leading_with_prefix(keys: Seq<Seq<char>>, p: Seq<char>) -> Seq<Seq<char>>
    decreases keys.len(),
{
    if keys.len() == 0 {
        keys
    } else if p.is_prefix_of(keys[0]) {
        seq![keys[0]] + leading_with_prefix(keys.drop_first(), p)
    } else {
        Seq::empty()
    }
}

/// Every key of `keys` that starts with `p`, in order.
pub open spec fn all_with_prefix(keys: Seq<Seq<char>>, p: Seq<char>) -> Seq<Seq<char>>
    decreases keys.len(),
{
    if keys.len() == 0 {
        keys
    } else if p.is_prefix_of(keys[0]) {
        seq![keys[0]] + all_with_prefix(keys.drop_first(), p)
    } else {
        all_with_prefix(keys.drop_first(), p)
    }
}

/// `keys` come in ascending order and none sorts before `p`: the rows of the
/// prefix query.
pub open spec fn ordered_from(keys: Seq<Seq<char>>, p: Seq<char>) -> bool {
    &&& forall|i: int| 0 <= i < keys.len() ==> text_le(p, #[trigger] keys[i])
    &&& forall|i: int, j: int| 0 <= i < j < keys.len() ==> text_le(#[trigger] keys[i], #[trigger] keys[j])
}

/// The keys of a list of entries.
pub open spec fn keys_of(entries: Seq<(String, String)>) -> Seq<Seq<char>> {
    entries.map_values(|e: (String, String)| e.0@)
}

proof fn lemma_none_with_prefix(keys: Seq<Seq<char>>, p: Seq<char>)
    requires
        forall|i: int| 0 <= i < keys.len() ==> !p.is_prefix_of(#[trigger] keys[i]),
    ensures
        all_with_prefix(keys, p) == Seq::<Seq<char>>::empty(),
    decreases keys.len(),
{
    if keys.len() > 0 {
        assert(!p.is_prefix_of(keys[0]));
        assert forall|i: int| 0 <= i < keys.drop_first().len() implies !p.is_prefix_of(
            #[trigger] keys.drop_first()[i],
        ) by {
            assert(keys.drop_first()[i] == keys[i + 1]);
        }
        lemma_none_with_prefix(keys.drop_first(), p);
    }
}

/// Stopping at the first key without the prefix loses nothing: over keys
/// that come in ascending order from the prefix on, the leading keys with
/// the prefix are all the keys with the prefix.
pub proof fn lemma_leading_is_all(keys: Seq<Seq<char>>, p: Seq<char>)
    requires
        ordered_from(keys, p),
    ensures
        leading_with_prefix(keys, p) == all_with_prefix(keys, p),
    decreases keys.len(),
{
    if keys.len() > 0 {
        let rest = keys.drop_first();
        assert(ordered_from(rest, p)) by {
            assert forall|i: int| 0 <= i < rest.len() implies text_le(p, #[trigger] rest[i]) by {
                assert(rest[i] == keys[i + 1]);
            }
            assert forall|i: int, j: int| 0 <= i < j < rest.len() implies text_le(
                #[trigger] rest[i],
                #[trigger] rest[j],
            ) by {
                assert(rest[i] == keys[i + 1]);
                assert(rest[j] == keys[j + 1]);
            }
        }
        if p.is_prefix_of(keys[0]) {
            lemma_leading_is_all(rest, p);
        } else {
            assert forall|i: int| 0 <= i < keys.len() implies !p.is_prefix_of(#[trigger] keys[i]) by {
                if i > 0 {
                    lemma_prefix_block(p, keys[0], keys[i]);
                }
            }
            lemma_none_with_prefix(keys, p);
        }
    }
}

proof fn lemma_leading_ignores_rest(read: Seq<Seq<char>>, rest: Seq<Seq<char>>, p: Seq<char>)
    requires
        read.len() > 0,
        !p.is_prefix_of(read.last()),
    ensures
        leading_with_prefix(read + rest, p) == leading_with_prefix(read, p),
    decreases read.len(),
{
    assert((read + rest)[0] == read[0]);
    if p.is_prefix_of(read[0]) {
        assert(read.len() > 1);
        assert((read + rest).drop_first() =~= read.drop_first() + rest);
        assert(read.drop_first().last() == read.last());
        lemma_leading_ignores_rest(read.drop_first(), rest, p);
    }
}

/// A prefix scan yields every entry whose key has the prefix, in key order.
///
/// `read` are the keys that a `KvCursor` read, `rest` those the query had
/// left when it stopped; the query delivers its rows at or after the
/// prefix, in ascending key order. Where the cursor stopped at a key
/// without the prefix, or because the rows ran out, the keys it yielded
/// (the leading keys of `read` with the prefix, see `collect_rows`) are
/// all the keys with the prefix that the query delivered.
pub proof fn lemma_prefix_scan_complete(read: Seq<Seq<char>>, rest: Seq<Seq<char>>, p: Seq<char>)
    requires
        ordered_from(read + rest, p),
        rest.len() == 0 || (read.len() > 0 && !p.is_prefix_of(read.last())),
    ensures
        leading_with_prefix(read, p) == all_with_prefix(read + rest, p),
{
    lemma_leading_is_all(read + rest, p);
    if rest.len() == 0 {
        assert(read + rest =~= read);
    } else {
        lemma_leading_ignores_rest(read, rest, p);
    }
}

/// With the empty prefix a scan yields every entry: every key starts with
/// the empty prefix.
pub proof fn lemma_empty_prefix_yields_all(keys: Seq<Seq<char>>)
    ensures
        leading_with_prefix(keys, Seq::empty()) == keys,
        all_with_prefix(keys, Seq::empty()) == keys,
    decreases keys.len(),
{
    if keys.len() > 0 {
        assert(Seq::<char>::empty().is_prefix_of(keys[0])) by {
            assert(Seq::<char>::empty() =~= keys[0].subrange(0, 0));
        }
        lemma_empty_prefix_yields_all(keys.drop_first());
        assert(seq![keys[0]] + keys.drop_first() =~= keys);
    }
}

fn other<T>(message: &'static str) -> (r: Result<T, Error>)
    ensures
        r == Err::<T, Error>(Error::Other(message)),
{
    Err(Error::Other(message))
}

/// Whether a file with schema stamp `user_version` needs setting up as a
/// key-value file: yes when it is new (stamp 0), no when it is one already,
/// and `None` when it is some other kind of file.
pub open spec fn kv_stamp_verdict(user_version: i64) -> Option<bool> {
    if user_version == 0 {
        Some(true)
    } else if user_version == KV_USER_VERSION_I64 {
        Some(false)
    } else {
        None
    }
}

/// The result of a statement that SQLite ran or failed.
pub open spec fn sqlite_result(o: Result<(), SqliteError>) -> Result<(), Error> {
    match o {
        Ok(()) => Ok(()),
        Err(e) => Err(Error::Sqlite(e)),
    }
}

/// Whether a key is present, given how many rows hold it.
pub open spec fn presence(count: i64) -> Result<bool, Error> {
    if count == 0 {
        Ok(false)
    } else if count == 1 {
        Ok(true)
    } else {
        Err(Error::Other(DUPLICATE_KEY))
    }
}

/// The error of a key-value file that could not be set up.
pub open spec fn setup_error(f: SetupFailure) -> Error {
    match f {
        SetupFailure::Sqlite(e) => Error::Sqlite(e),
        SetupFailure::NoStampRow => Error::Other(NO_VERSION_ROW),
        SetupFailure::ForeignStamp => Error::Other(NOT_A_KV_FILE),
    }
}

/// The error of a key-value file that could not be set up: a missing stamp
/// row and a foreign stamp get their messages.
pub fn setup_failure_error(f: SetupFailure) -> (e: Error)
    ensures
        e == setup_error(f),
{
    match f {
        SetupFailure::Sqlite(e) => Error::Sqlite(e),
        SetupFailure::NoStampRow => Error::Other(NO_VERSION_ROW),
        SetupFailure::ForeignStamp => Error::Other(NOT_A_KV_FILE),
    }
}

/// Where a `GetPlan` stands: which request it awaits the reply to.
#[derive(Clone, Copy, Debug, PartialEq, Eq, Structural)]
pub enum GetState {
    Start,
    Borrow,
    Bind,
    Step,
    Read,
}

/// Reads the value of a key: the get query with the key at parameter 1;
/// no row means no entry, a row holds the value in column 0.
pub struct GetPlan<'a> {
    pub key: &'a str,
}

/// The move of a `GetPlan` in state `s` on `reply`.
pub open spec fn get_move<'a>(key: &'a str, s: GetState, reply: Reply) -> Move<
    'a,
    GetState,
    Result<Option<String>, Error>,
> {
    if s == GetState::Start {
        Move::Ask(GetState::Borrow, Request::Borrow(Query::KvGet))
    } else if reply is Failed {
        Move::Finish(Err(Error::Sqlite(reply->Failed_0)))
    } else {
        match s {
            GetState::Borrow => Move::Ask(GetState::Bind, Request::BindText(1, key)),
            GetState::Bind => Move::Ask(GetState::Step, Request::Step),
            GetState::Step => if reply == Reply::Stepped(Step::Row) {
                Move::Ask(GetState::Read, Request::ReadText(0))
            } else {
                Move::Finish(Ok(None))
            },
            _ => Move::Finish(Ok(Some(reply->Text_0))),
        }
    }
}

impl<'a> Plan<'a> for GetPlan<'a> {
    type State = GetState;

    type Output = Result<Option<String>, Error>;

    open spec fn rank(&self, s: GetState) -> nat {
        match s {
            GetState::Start => 4,
            GetState::Borrow => 3,
            GetState::Bind => 2,
            GetState::Step => 1,
            GetState::Read => 0,
        }
    }

    open spec fn expects(&self, s: GetState, reply: Reply) -> bool {
        match s {
            GetState::Start => reply is Accepted,
            GetState::Step => reply is Stepped || reply is Failed,
            GetState::Read => reply is Text || reply is Failed,
            _ => reply is Accepted || reply is Failed,
        }
    }

    open spec fn sound(&self, out: Result<Option<String>, Error>) -> bool {
        out matches Err(e) ==> e.message() is None
    }

    open spec fn initial(&self) -> GetState {
        GetState::Start
    }

    open spec fn holds_statement(&self, s: Self::State) -> bool {
        false
    }

    open spec fn needs_statement(&self, out: Self::Output) -> bool {
        false
    }

    open spec fn next(&self, s: GetState, reply: Reply) -> Move<'a, GetState, Result<Option<String>, Error>> {
        get_move(self.key, s, reply)
    }

    fn start(&self) -> (s: GetState) {
        GetState::Start
    }

    fn advance(&self, s: GetState, reply: Reply) -> (m: Move<'a, GetState, Result<Option<String>, Error>>)
    {
        if s == GetState::Start {
            return Move::Ask(GetState::Borrow, Request::Borrow(Query::KvGet));
        }
        match reply {
            Reply::Failed(e) => Move::Finish(Err(Error::Sqlite(e))),
            Reply::Text(value) => Move::Finish(Ok(Some(value))),
            Reply::Stepped(Step::Row) => Move::Ask(GetState::Read, Request::ReadText(0)),
            Reply::Stepped(Step::Done) => Move::Finish(Ok(None)),
            _ => if s == GetState::Borrow {
                Move::Ask(GetState::Bind, Request::BindText(1, self.key))
            } else {
                Move::Ask(GetState::Step, Request::Step)
            },
        }
    }
}

/// Where a `ContainsPlan` stands: which request it awaits the reply to.
#[derive(Clone, Copy, Debug, PartialEq, Eq, Structural)]
pub enum ContainsState {
    Start,
    Borrow,
    Bind,
    Step,
    Read,
}

/// Tells whether a key is present: the count query with the key at
/// parameter 1; the count in column 0 of its row decides.
pub struct ContainsPlan<'a> {
    pub key: &'a str,
}

/// The move of a `ContainsPlan` in state `s` on `reply`.
pub open spec fn contains_move<'a>(key: &'a str, s: ContainsState, reply: Reply) -> Move<
    'a,
    ContainsState,
    Result<bool, Error>,
> {
    if s == ContainsState::Start {
        Move::Ask(ContainsState::Borrow, Request::Borrow(Query::KvContains))
    } else if reply is Failed {
        Move::Finish(Err(Error::Sqlite(reply->Failed_0)))
    } else {
        match s {
            ContainsState::Borrow => Move::Ask(ContainsState::Bind, Request::BindText(1, key)),
            ContainsState::Bind => Move::Ask(ContainsState::Step, Request::Step),
            ContainsState::Step => if reply == Reply::Stepped(Step::Row) {
                Move::Ask(ContainsState::Read, Request::ReadInt(0))
            } else {
                Move::Finish(Err(Error::Other(NO_COUNT_ROW)))
            },
            _ => Move::Finish(presence(reply->Int_0)),
        }
    }
}

impl<'a> Plan<'a> for ContainsPlan<'a> {
    type State = ContainsState;

    type Output = Result<bool, Error>;

    open spec fn rank(&self, s: ContainsState) -> nat {
        match s {
            ContainsState::Start => 4,
            ContainsState::Borrow => 3,
            ContainsState::Bind => 2,
            ContainsState::Step => 1,
            ContainsState::Read => 0,
        }
    }

    open spec fn expects(&self, s: ContainsState, reply: Reply) -> bool {
        match s {
            ContainsState::Start => reply is Accepted,
            ContainsState::Step => reply is Stepped || reply is Failed,
            ContainsState::Read => reply is Int || reply is Failed,
            _ => reply is Accepted || reply is Failed,
        }
    }

    open spec fn sound(&self, out: Result<bool, Error>) -> bool {
        out matches Err(e) ==> e.message() is None || e.message() == Some(DUPLICATE_KEY)
            || e.message() == Some(NO_COUNT_ROW)
    }

    open spec fn initial(&self) -> ContainsState {
        ContainsState::Start
    }

    open spec fn holds_statement(&self, s: Self::State) -> bool {
        false
    }

    open spec fn needs_statement(&self, out: Self::Output) -> bool {
        false
    }

    open spec fn next(&self, s: ContainsState, reply: Reply) -> Move<'a, ContainsState, Result<bool, Error>> {
        contains_move(self.key, s, reply)
    }

    fn start(&self) -> (s: ContainsState) {
        ContainsState::Start
    }

    fn advance(&self, s: ContainsState, reply: Reply) -> (m: Move<'a, ContainsState, Result<bool, Error>>)
    {
        if s == ContainsState::Start {
            return Move::Ask(ContainsState::Borrow, Request::Borrow(Query::KvContains));
        }
        match reply {
            Reply::Failed(e) => Move::Finish(Err(Error::Sqlite(e))),
            Reply::Int(count) => Move::Finish(Kv::presence_from_count(count)),
            Reply::Stepped(Step::Row) => Move::Ask(ContainsState::Read, Request::ReadInt(0)),
            Reply::Stepped(Step::Done) => Move::Finish(other(NO_COUNT_ROW)),
            _ => if s == ContainsState::Borrow {
                Move::Ask(ContainsState::Bind, Request::BindText(1, self.key))
            } else {
                Move::Ask(ContainsState::Step, Request::Step)
            },
        }
    }
}

/// Where an `InsertPlan` stands: which request it awaits the reply to, with
/// the old value once read and the error a rollback follows.
pub enum InsertState {
    Start,
    Begin,
    BorrowGet,
    BindGet,
    StepGet,
    ReadOld,
    BorrowInsert(Option<String>),
    BindKey(Option<String>),
    BindValue(Option<String>),
    StepInsert(Option<String>),
    Commit(Option<String>),
    RollBack(Error),
}

/// Sets the value of a key in one immediate transaction: `BEGIN
/// IMMEDIATE`; the get query with the key at parameter 1 reads the old
/// value (column 0 of its row, none without a row); the insert query with
/// the key at parameter 1 and the value at 2 must finish in one step; then
/// `COMMIT`, and the old value is the result. A failure after `BEGIN
/// IMMEDIATE` and before `COMMIT` is followed by `ROLLBACK TRANSACTION`,
/// and that failure is the result whatever the rollback answers.
pub struct InsertPlan<'a> {
    pub key: &'a str,
    pub value: &'a str,
}

/// The move of an `InsertPlan` in state `s` on `reply`.
pub open spec fn insert_move<'a>(key: &'a str, value: &'a str, s: InsertState, reply: Reply) -> Move<
    'a,
    InsertState,
    Result<Option<String>, Error>,
> {
    match s {
        InsertState::Start => Move::Ask(InsertState::Begin, Request::Execute(BEGIN_SQL)),
        InsertState::RollBack(e) => Move::Finish(Err(e)),
        InsertState::Begin => match reply {
            Reply::Failed(e) => Move::Finish(Err(Error::Sqlite(e))),
            _ => Move::Ask(InsertState::BorrowGet, Request::Borrow(Query::KvGet)),
        },
        InsertState::Commit(old) => match reply {
            Reply::Failed(e) => Move::Finish(Err(Error::Sqlite(e))),
            _ => Move::Finish(Ok(old)),
        },
        _ => match reply {
            Reply::Failed(e) => Move::Ask(
                InsertState::RollBack(Error::Sqlite(e)),
                Request::Execute(ROLLBACK_SQL),
            ),
            _ => match s {
                InsertState::BorrowGet => Move::Ask(InsertState::BindGet, Request::BindText(1, key)),
                InsertState::BindGet => Move::Ask(InsertState::StepGet, Request::Step),
                InsertState::StepGet => if reply == Reply::Stepped(Step::Row) {
                    Move::Ask(InsertState::ReadOld, Request::ReadText(0))
                } else {
                    Move::Ask(InsertState::BorrowInsert(None), Request::Borrow(Query::KvInsert))
                },
                InsertState::ReadOld => Move::Ask(
                    InsertState::BorrowInsert(Some(reply->Text_0)),
                    Request::Borrow(Query::KvInsert),
                ),
                InsertState::BorrowInsert(old) => Move::Ask(
                    InsertState::BindKey(old),
                    Request::BindText(1, key),
                ),
                InsertState::BindKey(old) => Move::Ask(
                    InsertState::BindValue(old),
                    Request::BindText(2, value),
                ),
                InsertState::BindValue(old) => Move::Ask(InsertState::StepInsert(old), Request::Step),
                InsertState::StepInsert(old) => if reply == Reply::Stepped(Step::Done) {
                    Move::Ask(InsertState::Commit(old), Request::Execute(COMMIT_SQL))
                } else {
                    Move::Ask(
                        InsertState::RollBack(Error::Other(INSERT_NOT_DONE)),
                        Request::Execute(ROLLBACK_SQL),
                    )
                },
                _ => Move::Finish(Ok(None)),
            },
        },
    }
}

impl<'a> Plan<'a> for InsertPlan<'a> {
    type State = InsertState;

    type Output = Result<Option<String>, Error>;

    open spec fn rank(&self, s: InsertState) -> nat {
        match s {
            InsertState::Start => 11,
            InsertState::Begin => 10,
            InsertState::BorrowGet => 9,
            InsertState::BindGet => 8,
            InsertState::StepGet => 7,
            InsertState::ReadOld => 6,
            InsertState::BorrowInsert(_) => 5,
            InsertState::BindKey(_) => 4,
            InsertState::BindValue(_) => 3,
            InsertState::StepInsert(_) => 2,
            InsertState::Commit(_) => 1,
            InsertState::RollBack(_) => 1,
        }
    }

    open spec fn expects(&self, s: InsertState, reply: Reply) -> bool {
        match s {
            InsertState::Start => reply is Accepted,
            InsertState::StepGet | InsertState::StepInsert(_) => reply is Stepped || reply is Failed,
            InsertState::ReadOld => reply is Text || reply is Failed,
            InsertState::RollBack(e) => (reply is Accepted || reply is Failed) && (e.message() is None
                || e.message() == Some(INSERT_NOT_DONE)),
            _ => reply is Accepted || reply is Failed,
        }
    }

    open spec fn sound(&self, out: Result<Option<String>, Error>) -> bool {
        out matches Err(e) ==> e.message() is None || e.message() == Some(INSERT_NOT_DONE)
    }

    open spec fn initial(&self) -> InsertState {
        InsertState::Start
    }

    open spec fn holds_statement(&self, s: Self::State) -> bool {
        false
    }

    open spec fn needs_statement(&self, out: Self::Output) -> bool {
        false
    }

    open spec fn next(&self, s: InsertState, reply: Reply) -> Move<'a, InsertState, Result<Option<String>, Error>> {
        insert_move(self.key, self.value, s, reply)
    }

    fn start(&self) -> (s: InsertState) {
        InsertState::Start
    }

    fn advance(&self, s: InsertState, reply: Reply) -> (m: Move<'a, InsertState, Result<Option<String>, Error>>)
    {
        match s {
            InsertState::Start => Move::Ask(InsertState::Begin, Request::Execute(BEGIN_SQL)),
            InsertState::RollBack(e) => Move::Finish(Err(e)),
            InsertState::Begin => match reply {
                Reply::Failed(e) => Move::Finish(Err(Error::Sqlite(e))),
                _ => Move::Ask(InsertState::BorrowGet, Request::Borrow(Query::KvGet)),
            },
            InsertState::Commit(old) => match reply {
                Reply::Failed(e) => Move::Finish(Err(Error::Sqlite(e))),
                _ => Move::Finish(Ok(old)),
            },
            s => match reply {
                Reply::Failed(e) => Move::Ask(
                    InsertState::RollBack(Error::Sqlite(e)),
                    Request::Execute(ROLLBACK_SQL),
                ),
                reply => match s {
                    InsertState::BorrowGet => Move::Ask(InsertState::BindGet, Request::BindText(1, self.key)),
                    InsertState::BindGet => Move::Ask(InsertState::StepGet, Request::Step),
                    InsertState::StepGet => match reply {
                        Reply::Stepped(Step::Row) => Move::Ask(InsertState::ReadOld, Request::ReadText(0)),
                        _ => Move::Ask(InsertState::BorrowInsert(None), Request::Borrow(Query::KvInsert)),
                    },
                    InsertState::ReadOld => match reply {
                        Reply::Text(old) => Move::Ask(
                            InsertState::BorrowInsert(Some(old)),
                            Request::Borrow(Query::KvInsert),
                        ),
                        _ => Move::Finish(Ok(None)),
                    },
                    InsertState::BorrowInsert(old) => Move::Ask(
                        InsertState::BindKey(old),
                        Request::BindText(1, self.key),
                    ),
                    InsertState::BindKey(old) => Move::Ask(
                        InsertState::BindValue(old),
                        Request::BindText(2, self.value),
                    ),
                    InsertState::BindValue(old) => Move::Ask(InsertState::StepInsert(old), Request::Step),
                    InsertState::StepInsert(old) => match reply {
                        Reply::Stepped(Step::Done) => Move::Ask(
                            InsertState::Commit(old),
                            Request::Execute(COMMIT_SQL),
                        ),
                        _ => Move::Ask(
                            InsertState::RollBack(Error::Other(INSERT_NOT_DONE)),
                            Request::Execute(ROLLBACK_SQL),
                        ),
                    },
                    _ => Move::Finish(Ok(None)),
                },
            },
        }
    }
}

/// Where a `PrefixPlan` stands: which request it awaits the reply to.
#[derive(Clone, Copy, Debug, PartialEq, Eq, Structural)]
pub enum PrefixState {
    Start,
    Borrow,
    Bind,
}

/// Starts a prefix scan: the prefix query with the prefix at parameter 1.
pub struct PrefixPlan<'a> {
    pub prefix: &'a str,
}

/// The move of a `PrefixPlan` in state `s` on `reply`.
pub open spec fn prefix_move<'a>(prefix: &'a str, s: PrefixState, reply: Reply) -> Move<
    'a,
    PrefixState,
    Result<(), Error>,
> {
    if s == PrefixState::Start {
        Move::Ask(PrefixState::Borrow, Request::Borrow(Query::KvPrefix))
    } else if reply is Failed {
        Move::Finish(Err(Error::Sqlite(reply->Failed_0)))
    } else if s == PrefixState::Borrow {
        Move::Ask(PrefixState::Bind, Request::BindText(1, prefix))
    } else {
        Move::Finish(Ok(()))
    }
}

impl<'a> Plan<'a> for PrefixPlan<'a> {
    type State = PrefixState;

    type Output = Result<(), Error>;

    open spec fn rank(&self, s: PrefixState) -> nat {
        match s {
            PrefixState::Start => 2,
            PrefixState::Borrow => 1,
            PrefixState::Bind => 0,
        }
    }

    open spec fn expects(&self, s: PrefixState, reply: Reply) -> bool {
        match s {
            PrefixState::Start => reply is Accepted,
            _ => reply is Accepted || reply is Failed,
        }
    }

    open spec fn sound(&self, out: Result<(), Error>) -> bool {
        out matches Err(e) ==> e.message() is None
    }

    open spec fn initial(&self) -> PrefixState {
        PrefixState::Start
    }

    open spec fn holds_statement(&self, s: Self::State) -> bool {
        s != PrefixState::Start
    }

    open spec fn needs_statement(&self, out: Self::Output) -> bool {
        out is Ok
    }

    open spec fn next(&self, s: PrefixState, reply: Reply) -> Move<'a, PrefixState, Result<(), Error>> {
        prefix_move(self.prefix, s, reply)
    }

    fn start(&self) -> (s: PrefixState) {
        PrefixState::Start
    }

    fn advance(&self, s: PrefixState, reply: Reply) -> (m: Move<'a, PrefixState, Result<(), Error>>)
    {
        if s == PrefixState::Start {
            return Move::Ask(PrefixState::Borrow, Request::Borrow(Query::KvPrefix));
        }
        match reply {
            Reply::Failed(e) => Move::Finish(Err(Error::Sqlite(e))),
            _ => if s == PrefixState::Borrow {
                Move::Ask(PrefixState::Bind, Request::BindText(1, self.prefix))
            } else {
                Move::Finish(Ok(()))
            },
        }
    }
}

/// What one step of a prefix scan found.
pub enum ScanStep {
    /// A row whose key has the prefix: its key (column 0) and value
    /// (column 1).
    Entry(String, String),
    /// A row whose key lacks the prefix, which ends the scan.
    Beyond(String),
    /// No row was left.
    Exhausted,
    /// SQLite failed.
    Failed(SqliteError),
}

/// What a cursor hands out for a step of its scan: an entry, nothing once
/// the rows with the prefix ran out, or SQLite's failure.
pub open spec fn scan_result(o: ScanStep) -> Option<Result<(String, String), Error>> {
    match o {
        ScanStep::Entry(key, value) => Some(Ok((key, value))),
        ScanStep::Failed(e) => Some(Err(Error::Sqlite(e))),
        _ => None,
    }
}

/// Where a `ScanPlan` stands: which request it awaits the reply to, with
/// the key once read.
pub enum ScanState {
    Start,
    Step,
    ReadKey,
    ReadValue(String),
}

/// One step of a prefix scan on the statement in use: step it; a row's
/// key is read from column 0, and where it has the prefix its value from
/// column 1.
pub struct ScanPlan<'a> {
    pub prefix: &'a str,
}

/// The move of a `ScanPlan` in state `s` on `reply`.
pub open spec fn scan_move<'a>(prefix: &'a str, s: ScanState, reply: Reply) -> Move<
    'a,
    ScanState,
    ScanStep,
> {
    match s {
        ScanState::Start => Move::Ask(ScanState::Step, Request::Step),
        _ => match reply {
            Reply::Failed(e) => Move::Finish(ScanStep::Failed(e)),
            _ => match s {
                ScanState::Step => if reply == Reply::Stepped(Step::Row) {
                    Move::Ask(ScanState::ReadKey, Request::ReadText(0))
                } else {
                    Move::Finish(ScanStep::Exhausted)
                },
                ScanState::ReadKey => if prefix@.is_prefix_of(reply->Text_0@) {
                    Move::Ask(ScanState::ReadValue(reply->Text_0), Request::ReadText(1))
                } else {
                    Move::Finish(ScanStep::Beyond(reply->Text_0))
                },
                ScanState::ReadValue(key) => Move::Finish(ScanStep::Entry(key, reply->Text_0)),
                _ => Move::Finish(ScanStep::Exhausted),
            },
        },
    }
}

impl<'a> Plan<'a> for ScanPlan<'a> {
    type State = ScanState;

    type Output = ScanStep;

    open spec fn rank(&self, s: ScanState) -> nat {
        match s {
            ScanState::Start => 3,
            ScanState::Step => 2,
            ScanState::ReadKey => 1,
            ScanState::ReadValue(_) => 0,
        }
    }

    open spec fn expects(&self, s: ScanState, reply: Reply) -> bool {
        match s {
            ScanState::Start => reply is Accepted,
            ScanState::Step => reply is Stepped || reply is Failed,
            ScanState::ReadKey => reply is Text || reply is Failed,
            ScanState::ReadValue(key) => (reply is Text || reply is Failed) && self.prefix@.is_prefix_of(
                key@,
            ),
        }
    }

    open spec fn sound(&self, out: ScanStep) -> bool {
        match out {
            ScanStep::Entry(key, _) => self.prefix@.is_prefix_of(key@),
            ScanStep::Beyond(key) => !self.prefix@.is_prefix_of(key@),
            _ => true,
        }
    }

    open spec fn initial(&self) -> ScanState {
        ScanState::Start
    }

    open spec fn holds_statement(&self, s: Self::State) -> bool {
        false
    }

    open spec fn needs_statement(&self, out: Self::Output) -> bool {
        false
    }

    open spec fn next(&self, s: ScanState, reply: Reply) -> Move<'a, ScanState, ScanStep> {
        scan_move(self.prefix, s, reply)
    }

    fn start(&self) -> (s: ScanState) {
        ScanState::Start
    }

    fn advance(&self, s: ScanState, reply: Reply) -> (m: Move<'a, ScanState, ScanStep>)
    {
        match s {
            ScanState::Start => Move::Ask(ScanState::Step, Request::Step),
            s => match reply {
                Reply::Failed(e) => Move::Finish(ScanStep::Failed(e)),
                Reply::Stepped(Step::Row) => Move::Ask(ScanState::ReadKey, Request::ReadText(0)),
                Reply::Text(text) => match s {
                    ScanState::ReadValue(key) => Move::Finish(ScanStep::Entry(key, text)),
                    _ => if has_prefix(text.as_str(), self.prefix) {
                        Move::Ask(ScanState::ReadValue(text), Request::ReadText(1))
                    } else {
                        Move::Finish(ScanStep::Beyond(text))
                    },
                },
                _ => Move::Finish(ScanStep::Exhausted),
            },
        }
    }
}

impl Kv {
    /// Whether a file whose schema stamp is `user_version` still has to be
    /// set up: a new file reads 0, a key-value file reads its stamp, and any
    /// other stamp belongs to some other kind of file.
    pub fn needs_setup(user_version: i64) -> (r: Result<bool, Error>)
        ensures
            r == match kv_stamp_verdict(user_version) {
                Some(b) => Ok(b),
                None => Err(Error::Other(NOT_A_KV_FILE)),
            },
    {
        if user_version == 0 {
            Ok(true)
        } else if user_version == KV_USER_VERSION_I64 {
            Ok(false)
        } else {
            other(NOT_A_KV_FILE)
        }
    }

    /// Whether a key is present, given how many rows hold it: at most one
    /// row can, as the key is the table's primary key.
    pub fn presence_from_count(count: i64) -> (r: Result<bool, Error>)
        ensures
            r == presence(count),
    {
        if count == 0 {
            Ok(false)
        } else if count == 1 {
            Ok(true)
        } else {
            other(DUPLICATE_KEY)
        }
    }

    /// Opens the key-value file at `path` and runs `SetupPlan` on it: the
    /// pragmas, the stamp check, the table and stamp of a new file, then the
    /// four queries.
    ///
    /// Fails with `Other(NOT_A_KV_FILE)` when the file carries another
    /// schema stamp, with `Other(NO_VERSION_ROW)` when SQLite reports no
    /// stamp, and with `Sqlite` when SQLite fails.
    pub fn new(path: &str) -> (r: Result<Kv, Error>)
        ensures
            r matches Err(e) ==> e.message() is None || e.message() == Some(NOT_A_KV_FILE)
                || e.message() == Some(NO_VERSION_ROW),
            r is Ok ==> can_yield((SetupPlan { kind: StoreKind::Kv }), Ok::<(), SetupFailure>(())),
            r matches Err(e) ==> (e is Other ==> exists|f: SetupFailure|
                #[trigger] can_yield((SetupPlan { kind: StoreKind::Kv }), Err::<(), SetupFailure>(f))
                    && e == setup_error(f)),
    {
        let mut inner = match db::open(path) {
            Ok(c) => c,
            Err(e) => return Err(Error::Sqlite(e)),
        };
        let mut prepared = Prepared::new();
        let plan = SetupPlan { kind: StoreKind::Kv };
        let out = run_setup(&plan, &mut inner, &mut prepared);
        match out {
            Ok(()) => {
                assert(out->Ok_0 == ());
                Ok(Kv { inner, prepared })
            },
            Err(f) => Err(setup_failure_error(f)),
        }
    }

    /// Removes every entry: runs `DELETE FROM sql_hummus_0_kv`.
    pub fn clear(&self) -> (r: Result<(), Error>)
        ensures
            r matches Err(e) ==> e.message() is None,
            exists|o: Result<(), SqliteError>|
                #[trigger] can_yield((ExecutePlan { sql: KV_CLEAR_SQL }), o) && r == sqlite_result(o),
    {
        match run(&ExecutePlan { sql: KV_CLEAR_SQL }, &self.inner, &self.prepared, None).0 {
            Ok(()) => Ok(()),
            Err(e) => Err(Error::Sqlite(e)),
        }
    }

    /// Whether `key` has an entry, by `ContainsPlan`.
    ///
    /// Fails with `Other(DUPLICATE_KEY)` when more than one row holds the
    /// key, with `Other(NO_COUNT_ROW)` when SQLite reports no count, and
    /// with `Sqlite` when SQLite fails.
    pub fn contains_key(&self, key: &str) -> (r: Result<bool, Error>)
        ensures
            r matches Err(e) ==> e.message() is None || e.message() == Some(DUPLICATE_KEY)
                || e.message() == Some(NO_COUNT_ROW),
            can_yield((ContainsPlan { key }), r),
    {
        run(&ContainsPlan { key }, &self.inner, &self.prepared, None).0
    }

    /// The value of `key`, or `None` where it has no entry, by `GetPlan`.
    pub fn get(&self, key: &str) -> (r: Result<Option<String>, Error>)
        ensures
            r matches Err(e) ==> e.message() is None,
            can_yield((GetPlan { key }), r),
    {
        run(&GetPlan { key }, &self.inner, &self.prepared, None).0
    }

    /// Sets the value of `key` to `value`, in one immediate transaction, and
    /// returns the value it had before, `None` where it had no entry, by
    /// `InsertPlan`.
    ///
    /// Fails with `Other(INSERT_NOT_DONE)` when SQLite does not finish the
    /// insert in one step, and with `Sqlite` when SQLite fails; a failure
    /// after the transaction began rolls it back.
    pub fn insert(&self, key: &str, value: &str) -> (r: Result<Option<String>, Error>)
        ensures
            r matches Err(e) ==> e.message() is None || e.message() == Some(INSERT_NOT_DONE),
            can_yield((InsertPlan { key, value }), r),
    {
        run(&InsertPlan { key, value }, &self.inner, &self.prepared, None).0
    }

    /// The entries whose keys start with `prefix`, in key order, by
    /// `PrefixPlan`.
    pub fn with_prefix<'a>(&'a self, prefix: &'a str) -> (r: Result<KvCursor<'a>, Error>)
        ensures
            r matches Ok(c) ==> c.prefix() == prefix@ && c.keys_read() == Seq::<Seq<char>>::empty()
                && !c.ended() && !c.failed() && c.scan_plan() == (ScanPlan { prefix }),
            r matches Err(e) ==> e.message() is None,
            r is Ok ==> can_yield((PrefixPlan { prefix }), Ok::<(), Error>(())),
            r matches Err(e) ==> can_yield((PrefixPlan { prefix }), Err::<(), Error>(e)),
    {
        let (out, current) = run(&PrefixPlan { prefix }, &self.inner, &self.prepared, None);
        proof {
            if out is Ok {
                assert(out->Ok_0 == ());
            }
        }
        match out {
            Ok(()) => match current {
                Some(stmt) => Ok(
                    KvCursor {
                        kv: self,
                        stmt,
                        prefix,
                        keys_read: Ghost(Seq::empty()),
                        exhausted: false,
                        failed: false,
                    },
                ),
                // Not reached: the plan ends `Ok` only with its statement in use.
                None => Err(Error::Sqlite(SqliteError { code: None, message: None })),
            },
            Err(e) => Err(e),
        }
    }
}

impl<'a> KvCursor<'a> {
    /// The prefix that the entries' keys start with.
    pub closed spec fn prefix(&self) -> Seq<char> {
        self.prefix@
    }

    /// The keys of the rows read so far, in order: those handed out, and
    /// the one without the prefix that ended a scan.
    pub closed spec fn keys_read(&self) -> Seq<Seq<char>> {
        self.keys_read@
    }

    /// The last step found no row left.
    pub closed spec fn ended(&self) -> bool {
        self.exhausted
    }

    /// The plan that each step of the cursor runs.
    pub closed spec fn scan_plan(&self) -> ScanPlan<'a> {
        ScanPlan { prefix: self.prefix }
    }

    /// SQLite failed on an earlier step; the cursor hands out nothing more.
    pub closed spec fn failed(&self) -> bool {
        self.failed
    }

    /// The next entry, by one run of `ScanPlan`; `None` where the rows ran
    /// out, the next key no longer starts with the prefix, or an earlier
    /// step failed.
    pub fn next(&mut self) -> (r: Option<Result<(String, String), Error>>)
        ensures
            final(self).prefix() == old(self).prefix(),
            final(self).scan_plan() == old(self).scan_plan(),
            !old(self).failed() ==> exists|o: ScanStep|
                #[trigger] can_yield(old(self).scan_plan(), o) && r == scan_result(o) && final(self).ended()
                    == (o is Exhausted) && final(self).failed() == (o is Failed) && final(self).keys_read()
                    == match o {
                    ScanStep::Entry(key, _) => old(self).keys_read().push(key@),
                    ScanStep::Beyond(key) => old(self).keys_read().push(key@),
                    _ => old(self).keys_read(),
                },
            old(self).failed() ==> r is None && final(self).failed() && final(self).keys_read()
                == old(self).keys_read() && final(self).ended() == old(self).ended(),
            !old(self).failed() ==> match r {
                Some(Ok((key, _))) => {
                    &&& final(self).prefix().is_prefix_of(key@)
                    &&& final(self).keys_read() == old(self).keys_read().push(key@)
                    &&& !final(self).ended()
                    &&& !final(self).failed()
                },
                Some(Err(e)) => {
                    &&& e.message() is None
                    &&& final(self).keys_read() == old(self).keys_read()
                    &&& !final(self).ended()
                    &&& final(self).failed()
                },
                None => {
                    &&& !final(self).failed()
                    &&& {
                        ||| final(self).ended() && final(self).keys_read() == old(self).keys_read()
                        ||| {
                            &&& !final(self).ended()
                            &&& final(self).keys_read().len() == old(self).keys_read().len() + 1
                            &&& final(self).keys_read().drop_last() == old(self).keys_read()
                            &&& !final(self).prefix().is_prefix_of(final(self).keys_read().last())
                        }
                    }
                },
            },
    {
        if self.failed {
            return None;
        }
        let plan = ScanPlan { prefix: self.prefix };
        let out = run(&plan, &self.kv.inner, &self.kv.prepared, Some(self.stmt)).0;
        let ghost step = out;
        assert(can_yield(old(self).scan_plan(), step));
        match out {
            ScanStep::Entry(key, value) => {
                self.exhausted = false;
                self.keys_read = Ghost(self.keys_read@.push(key@));
                Some(Ok((key, value)))
            },
            ScanStep::Beyond(key) => {
                self.exhausted = false;
                self.keys_read = Ghost(self.keys_read@.push(key@));
                None
            },
            ScanStep::Exhausted => {
                self.exhausted = true;
                None
            },
            ScanStep::Failed(e) => {
                self.exhausted = false;
                self.failed = true;
                Some(Err(Error::Sqlite(e)))
            },
        }
    }

    /// Every entry left, in order, stopping at the first failure.
    ///
    /// The keys handed out are the leading keys with the prefix among the
    /// keys read, and the scan stopped because the rows ran out, at a key
    /// without the prefix, or because an earlier step had failed:
    /// `lemma_prefix_scan_complete` then shows them to be every key with the
    /// prefix.
    pub fn collect_rows(&mut self) -> (r: Result<Vec<(String, String)>, Error>)
        ensures
            final(self).prefix() == old(self).prefix(),
            old(self).keys_read().is_prefix_of(final(self).keys_read()),
            r matches Err(e) ==> e.message() is None && final(self).failed(),
            r matches Ok(entries) ==> {
                let read = final(self).keys_read().skip(old(self).keys_read().len() as int);
                &&& keys_of(entries@) == leading_with_prefix(read, final(self).prefix())
                &&& final(self).ended() || (read.len() > 0 && !final(self).prefix().is_prefix_of(
                    read.last(),
                )) || (old(self).failed() && entries@.len() == 0)
            },
    {
        let ghost start = self.keys_read@;
        let ghost p = self.prefix@;
        let ghost was_failed = self.failed;
        let mut entries: Vec<(String, String)> = Vec::new();
        loop
            invariant
                self.prefix@ == p,
                p == old(self).prefix@,
                start == old(self).keys_read@,
                was_failed == old(self).failed,
                was_failed ==> self.failed && self.keys_read@ == start && entries@.len() == 0,
                !was_failed ==> !self.failed,
                start.is_prefix_of(self.keys_read@),
                keys_of(entries@) == self.keys_read@.skip(start.len() as int),
                forall|i: int| 0 <= i < entries@.len() ==> p.is_prefix_of(#[trigger] entries@[i].0@),
            decreases usize::MAX - entries.len(),
        {
            let ghost before = self.keys_read@;
            let ghost failed_before = self.failed;
            match self.next() {
                Some(Ok(entry)) => {
                    entries.push(entry);
                    assert(self.keys_read@.skip(start.len() as int) =~= before.skip(
                        start.len() as int,
                    ).push(entry.0@));
                    assert(keys_of(entries@) =~= keys_of(entries@.drop_last()).push(entry.0@));
                },
                Some(Err(e)) => {
                    return Err(e);
                },
                None => {
                    let ghost read = self.keys_read@.skip(start.len() as int);
                    proof {
                        if self.keys_read@.len() == before.len() {
                            assert(read =~= keys_of(entries@));
                            lemma_all_prefixed_is_leading(keys_of(entries@), p);
                        } else {
                            assert(read =~= keys_of(entries@).push(self.keys_read@.last()));
                            lemma_prefixed_then_stop(keys_of(entries@), self.keys_read@.last(), p);
                        }
                    }
                    return Ok(entries);
                },
            }
        }
    }
}

proof fn lemma_all_prefixed_is_leading(keys: Seq<Seq<char>>, p: Seq<char>)
    requires
        forall|i: int| 0 <= i < keys.len() ==> p.is_prefix_of(#[trigger] keys[i]),
    ensures
        leading_with_prefix(keys, p) == keys,
    decreases keys.len(),
{
    if keys.len() > 0 {
        assert(p.is_prefix_of(keys[0]));
        assert forall|i: int| 0 <= i < keys.drop_first().len() implies p.is_prefix_of(
            #[trigger] keys.drop_first()[i],
        ) by {
            assert(keys.drop_first()[i] == keys[i + 1]);
        }
        lemma_all_prefixed_is_leading(keys.drop_first(), p);
        assert(seq![keys[0]] + keys.drop_first() =~= keys);
    }
}

proof fn lemma_prefixed_then_stop(keys: Seq<Seq<char>>, last: Seq<char>, p: Seq<char>)
    requires
        forall|i: int| 0 <= i < keys.len() ==> p.is_prefix_of(#[trigger] keys[i]),
        !p.is_prefix_of(last),
    ensures
        leading_with_prefix(keys.push(last), p) == keys,
    decreases keys.len(),
{
    if keys.len() == 0 {
        assert(keys.push(last)[0] == last);
    } else {
        assert(keys.push(last)[0] == keys[0]);
        assert(keys.push(last).drop_first() =~= keys.drop_first().push(last));
        assert forall|i: int| 0 <= i < keys.drop_first().len() implies p.is_prefix_of(
            #[trigger] keys.drop_first()[i],
        ) by {
            assert(keys.drop_first()[i] == keys[i + 1]);
        }
        lemma_prefixed_then_stop(keys.drop_first(), last, p);
        assert(seq![keys[0]] + keys.drop_first() =~= keys);
    }
}

} // verus!
