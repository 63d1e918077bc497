//! The error of log files: what went wrong, and the trail of cookies, short
//! codes that name the places it passed through on its way out.
use vstd::prelude::*;

use crate::db::SqliteError;
use crate::ids::UlidDecodeError;

verus! {

/// What went wrong.
#[derive(Debug)]
pub enum ErrorKind {
    /// A failure that the library itself detected.
    Str(&'static str),
    /// SQLite reported an error.
    Sqlite(SqliteError),
    /// A stored ULID could not be decoded.
    UlidDecode(UlidDecodeError),
}

#[derive(Debug)]
struct ErrorRepr {
    cookies: Vec<&'static str>,
    kind: ErrorKind,
}

/// An error of a log file.
#[derive(Debug)]
pub struct Error(ErrorRepr);

pub type Result<T> = core::result::Result<T, Error>;

impl Error {
    /// The cookies gathered so far, oldest first.
    pub closed spec fn cookies(&self) -> Seq<&'static str> {
        self.0.cookies@
    }

    /// What went wrong.
    pub closed spec fn kind(&self) -> ErrorKind {
        self.0.kind
    }

    /// An error of the given kind, with no cookies yet.
    pub fn from_kind(kind: ErrorKind) -> (r: Error)
        ensures
            r.kind() == kind,
            r.cookies() == Seq::<&'static str>::empty(),
    {
        Error(ErrorRepr { cookies: Vec::new(), kind })
    }

    /// An error that the library itself detected.
    pub fn from_message(message: &'static str) -> (r: Error)
        ensures
            r.kind() == ErrorKind::Str(message),
            r.cookies() == Seq::<&'static str>::empty(),
    {
        Error::from_kind(ErrorKind::Str(message))
    }

    /// An error that SQLite reported.
    pub fn from_sqlite(e: SqliteError) -> (r: Error)
        ensures
            r.kind() == ErrorKind::Sqlite(e),
            r.cookies() == Seq::<&'static str>::empty(),
    {
        Error::from_kind(ErrorKind::Sqlite(e))
    }

    /// An error of the given kind whose trail holds `cookie`, if any.
    pub fn with_cookie(kind: ErrorKind, cookie: Option<&'static str>) -> (r: Error)
        ensures
            r.kind() == kind,
            r.cookies() == match cookie {
                Some(c) => seq![c],
                None => Seq::<&'static str>::empty(),
            },
    {
        let mut e = Error::from_kind(kind);
        if let Some(c) = cookie {
            e.push_cookie(c);
            assert(e.cookies() =~= seq![c]);
        }
        e
    }

    /// The cookies gathered so far, oldest first.
    pub fn cookie_trail(&self) -> (r: &Vec<&'static str>)
        ensures
            r@ == self.cookies(),
    {
        &self.0.cookies
    }

    /// What went wrong.
    pub fn error_kind(&self) -> (r: &ErrorKind)
        ensures
            *r == self.kind(),
    {
        &self.0.kind
    }

    /// Adds `cookie` to the trail.
    pub fn push_cookie(&mut self, cookie: &'static str)
        ensures
            final(self).cookies() == old(self).cookies().push(cookie),
            final(self).kind() == old(self).kind(),
    {
        self.0.cookies.push(cookie);
    }
}

/// Marks where a failure passed, in the manner of `anyhow::Context`.
pub trait Cookie<T>: Sized {
    /// Adds `cookie` to the trail of an error; a success passes unchanged.
    fn cookie(self, cookie: &'static str) -> Result<T>;
}

impl<T> Cookie<T> for core::result::Result<T, Error> {
    fn cookie(self, cookie: &'static str) -> (r: Result<T>)
        ensures
            match self {
                Ok(x) => r == Ok::<T, Error>(x),
                Err(e) => r matches Err(f) && f.cookies() == e.cookies().push(cookie) && f.kind()
                    == e.kind(),
            },
    {
        match self {
            Ok(x) => Ok(x),
            Err(mut e) => {
                e.push_cookie(cookie);
                Err(e)
            },
        }
    }
}

/// The result of an SQLite call, its error made an `Error`.
pub fn from_sqlite<T>(r: core::result::Result<T, SqliteError>) -> (out: Result<T>)
    ensures
        match r {
            Ok(x) => out == Ok::<T, Error>(x),
            Err(e) => out matches Err(f) && f.kind() == ErrorKind::Sqlite(e) && f.cookies()
                == Seq::<&'static str>::empty(),
        },
{
    match r {
        Ok(x) => Ok(x),
        Err(e) => Err(Error::from_sqlite(e)),
    }
}

} // verus!
