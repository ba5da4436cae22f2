//! The connection to SQLite. Every statement is compiled and bound by one
//! trusted call, which records in a ghost log, in order, each statement and
//! its parameters as they were handed to the driver.
use vstd::prelude::*;
use rusqlite::types::ValueRef;
use crate::table::SqlValue;

verus! {

#[verifier::external_type_specification]
#[verifier::external_body]
pub struct ExConnection(rusqlite::Connection);

#[verifier::external_type_specification]
#[verifier::external_body]
pub struct ExError(rusqlite::Error);

/// A parameter bound to a statement.
#[derive(Debug, Clone)]
pub enum Param {
    Null,
    Integer(i64),
    Text(String),
    Blob(Vec<u8>),
}

/// The mathematical value of a bound parameter.
pub enum Bound {
    Null,
    Integer(i64),
    Text(Seq<char>),
    Blob(Seq<u8>),
}

pub open spec fn bound_of(p: Param) -> Bound {
    match p {
        Param::Null => Bound::Null,
        Param::Integer(i) => Bound::Integer(i),
        Param::Text(t) => Bound::Text(t@),
        Param::Blob(b) => Bound::Blob(b@),
    }
}

pub open spec fn bounds(p: Seq<Param>) -> Seq<Bound> {
    p.map_values(|x: Param| bound_of(x))
}

/// One statement as sent: its text and its parameters.
pub type Sent = (Seq<char>, Seq<Bound>);

/// A connection and the log of the statements sent through it.
pub struct Db<'a> {
    pub conn: &'a rusqlite::Connection,
    pub log: Ghost<Seq<Sent>>,
}

impl<'a> Db<'a> {
    pub fn new(conn: &'a rusqlite::Connection) -> (r: Db<'a>)
        ensures
            r.conn == conn,
            r.log@ == Seq::<Sent>::empty(),
    {
        Db { conn, log: Ghost(Seq::empty()) }
    }
}

#[verifier::external_type_specification]
#[verifier::external_body]
pub struct ExStatement<'conn>(rusqlite::Statement<'conn>);

/// Relies on `rusqlite::Connection::prepare` and
/// `Statement::raw_bind_parameter`: compiles `sql` and binds `params` in
/// order as `?1, ?2, ...`. The statement is recorded as sent.
#[verifier::external_body]
pub(crate) fn prepare_bound<'a>(db: &mut Db<'a>, sql: &str, params: &Vec<Param>) -> (r: Result<
    rusqlite::Statement<'a>,
    rusqlite::Error,
>)
    ensures
        final(db).conn == old(db).conn,
        final(db).log@ == old(db).log@.push((sql@, bounds(params@))),
{
    let mut stmt = db.conn.prepare(sql)?;
    for (i, p) in (1..).zip(params.iter()) {
        match p {
            Param::Null => stmt.raw_bind_parameter(i, rusqlite::types::Null)?,
            Param::Integer(v) => stmt.raw_bind_parameter(i, v)?,
            Param::Text(t) => stmt.raw_bind_parameter(i, t)?,
            Param::Blob(b) => stmt.raw_bind_parameter(i, b)?,
        }
    }
    Ok(stmt)
}

/// Relies on `Statement::raw_query`, `Rows::next`, `Row::get_ref` and
/// `ValueRef::as_str`: steps the statement to the end and returns every
/// result row, one value per column. Text that is not UTF-8 is an error.
#[verifier::external_body]
pub(crate) fn collect_rows(mut stmt: rusqlite::Statement) -> (r: Result<Vec<Vec<SqlValue>>, rusqlite::Error>) {
    let n = stmt.column_count();
    let mut rows = stmt.raw_query();
    let mut out = Vec::new();
    while let Some(row) = rows.next()? {
        out.push((0..n).map(|i| row.get_ref(i).and_then(|v| Ok(match v {
            ValueRef::Null => SqlValue::Null,
            ValueRef::Integer(i) => SqlValue::Integer(i),
            ValueRef::Real(x) => SqlValue::Real(x.to_bits()),
            ValueRef::Text(_) => SqlValue::Text(v.as_str()?.to_owned()),
            ValueRef::Blob(b) => SqlValue::Blob(b.to_vec()),
        }))).collect::<Result<Vec<SqlValue>, rusqlite::Error>>()?);
    }
    Ok(out)
}

/// Relies on `rusqlite::Connection::last_insert_rowid`: the row id of the
/// most recent successful insert on this connection.
#[verifier::external_body]
pub(crate) fn last_insert_rowid(db: &Db) -> (r: i64) {
    db.conn.last_insert_rowid()
}

/// Relies on the `Display` form of `rusqlite::Error`.
#[verifier::external_body]
pub(crate) fn error_text(e: &rusqlite::Error) -> (r: String) {
    e.to_string()
}

} // verus!
