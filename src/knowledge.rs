//! The knowledge base: a document store, a message store and the account and
//! channel tables, all on one connection.
use vstd::prelude::*;
use crate::db::{Bound, Db, Param, Sent, bounds};
use crate::embedding::Embedding;
use crate::store::{
    SqliteError, SqliteVectorIndex, SqliteVectorStore, batch_embeddings, batch_fits, begin_sent,
    commit_sent, committed_batch, store_created, batch_aborted, stopped_batch, store_aborted, aborted_within, sent_prefix, exec, exec_plain, record_statements, rollback_sent, vectors,
};
use crate::table::{Document, Message, SqlValue, SqliteVectorStoreTable, text_at, text_of};
use crate::types::{ChannelType, Source};

verus! {

/// An account of a person on some platform.
#[derive(Debug, Clone)]
pub struct Account {
    pub id: i64,
    pub name: String,
    pub source_id: String,
    pub source: String,
    pub created_at: String,
    pub updated_at: String,
}

/// A conversation place on some platform.
#[derive(Debug, Clone)]
pub struct Channel {
    pub id: i64,
    pub channel_id: String,
    pub channel_type: String,
    pub source: String,
    pub name: Option<String>,
    pub created_at: String,
    pub updated_at: String,
}

/// A conversation of a user.
#[derive(Debug, Clone)]
pub struct Conversation {
    pub id: String,
    pub user_id: String,
    pub title: String,
    pub created_at: String,
    pub updated_at: String,
}

/// Where a message came from and when.
pub trait MessageMetadata {
    fn id(&self) -> String;

    fn source_id(&self) -> String;

    fn channel_id(&self) -> String;

    /// RFC 3339 time of creation.
    fn created_at(&self) -> String;

    fn source(&self) -> Source;

    fn channel_type(&self) -> ChannelType;
}

impl MessageMetadata for Message {
    fn id(&self) -> String {
        self.id.clone()
    }

    fn source_id(&self) -> String {
        self.source_id.clone()
    }

    fn channel_id(&self) -> String {
        self.channel_id.clone()
    }

    fn created_at(&self) -> String {
        self.created_at.clone()
    }

    fn source(&self) -> Source {
        self.source
    }

    fn channel_type(&self) -> ChannelType {
        self.channel_type
    }
}

/// The text of a message.
pub trait MessageContent {
    fn content(&self) -> &str;
}

impl MessageContent for Message {
    fn content(&self) -> &str {
        self.content.as_str()
    }
}

/// The integer held by a value, if it is an integer.
pub open spec fn integer_of(v: SqlValue) -> Option<i64> {
    match v {
        SqlValue::Integer(i) => Some(i),
        _ => None,
    }
}

/// A nullable text column: `Some(None)` for NULL, `None` for a value of
/// another kind.
pub open spec fn nullable_text_of(v: SqlValue) -> Option<Option<Seq<char>>> {
    match v {
        SqlValue::Null => Some(None),
        SqlValue::Text(t) => Some(Some(t@)),
        _ => None,
    }
}

fn integer_at(row: &Vec<SqlValue>, i: usize) -> (r: Option<i64>)
    ensures
        r is Some <==> (i < row@.len() && integer_of(row@[i as int]) is Some),
        r is Some ==> integer_of(row@[i as int]) == r,
{
    if i >= row.len() {
        return None;
    }
    match &row[i] {
        SqlValue::Integer(v) => Some(*v),
        _ => None,
    }
}

fn nullable_text_at(row: &Vec<SqlValue>, i: usize) -> (r: Option<Option<String>>)
    ensures
        r is Some <==> (i < row@.len() && nullable_text_of(row@[i as int]) is Some),
        r matches Some(t) ==> nullable_text_of(row@[i as int]) == Some(
            match t {
                Some(s) => Some(s@),
                None => None,
            },
        ),
{
    if i >= row.len() {
        return None;
    }
    match &row[i] {
        SqlValue::Null => Some(None),
        SqlValue::Text(t) => Some(Some(t.clone())),
        _ => None,
    }
}

/// A row `id, channel_id, channel_type, source, name, created_at, updated_at`.
pub open spec fn channel_row(row: Seq<SqlValue>) -> bool {
    &&& row.len() >= 7
    &&& integer_of(row[0]) is Some
    &&& text_of(row[1]) is Some
    &&& text_of(row[2]) is Some
    &&& text_of(row[3]) is Some
    &&& nullable_text_of(row[4]) is Some
    &&& text_of(row[5]) is Some
    &&& text_of(row[6]) is Some
}

pub open spec fn channel_matches(row: Seq<SqlValue>, c: Channel) -> bool {
    &&& integer_of(row[0]) == Some(c.id)
    &&& text_of(row[1]) == Some(c.channel_id@)
    &&& text_of(row[2]) == Some(c.channel_type@)
    &&& text_of(row[3]) == Some(c.source@)
    &&& nullable_text_of(row[4]) == Some(
        match c.name {
            Some(s) => Some(s@),
            None => None,
        },
    )
    &&& text_of(row[5]) == Some(c.created_at@)
    &&& text_of(row[6]) == Some(c.updated_at@)
}

impl Channel {
    pub fn from_row(row: &Vec<SqlValue>) -> (r: Option<Channel>)
        ensures
            r is Some <==> channel_row(row@),
            r matches Some(c) ==> channel_matches(row@, c),
    {
        let id = integer_at(row, 0);
        let channel_id = text_at(row, 1);
        let channel_type = text_at(row, 2);
        let source = text_at(row, 3);
        let name = nullable_text_at(row, 4);
        let created_at = text_at(row, 5);
        let updated_at = text_at(row, 6);
        match (id, channel_id, channel_type, source, name, created_at, updated_at) {
            (
                Some(id),
                Some(channel_id),
                Some(channel_type),
                Some(source),
                Some(name),
                Some(created_at),
                Some(updated_at),
            ) => Some(Channel { id, channel_id, channel_type, source, name, created_at, updated_at }),
            _ => None,
        }
    }
}

/// A row `id, name, source_id, source, created_at, updated_at`.
pub open spec fn account_row(row: Seq<SqlValue>) -> bool {
    &&& row.len() >= 6
    &&& integer_of(row[0]) is Some
    &&& forall|i: int| 1 <= i < 6 ==> #[trigger] text_of(row[i]) is Some
}

pub open spec fn account_matches(row: Seq<SqlValue>, a: Account) -> bool {
    &&& integer_of(row[0]) == Some(a.id)
    &&& text_of(row[1]) == Some(a.name@)
    &&& text_of(row[2]) == Some(a.source_id@)
    &&& text_of(row[3]) == Some(a.source@)
    &&& text_of(row[4]) == Some(a.created_at@)
    &&& text_of(row[5]) == Some(a.updated_at@)
}

impl Account {
    pub fn from_row(row: &Vec<SqlValue>) -> (r: Option<Account>)
        ensures
            r is Some <==> account_row(row@),
            r matches Some(a) ==> account_matches(row@, a),
    {
        let id = integer_at(row, 0);
        let name = text_at(row, 1);
        let source_id = text_at(row, 2);
        let source = text_at(row, 3);
        let created_at = text_at(row, 4);
        let updated_at = text_at(row, 5);
        proof {
            if account_row(row@) {
                assert(text_of(row@[1]) is Some);
                assert(text_of(row@[2]) is Some);
                assert(text_of(row@[3]) is Some);
                assert(text_of(row@[4]) is Some);
                assert(text_of(row@[5]) is Some);
            }
        }
        match (id, name, source_id, source, created_at, updated_at) {
            (Some(id), Some(name), Some(source_id), Some(source), Some(created_at), Some(updated_at)) => {
                Some(Account { id, name, source_id, source, created_at, updated_at })
            },
            _ => None,
        }
    }
}

/// The id returned by an insert with `RETURNING id`: the single value of the
/// first row.
pub open spec fn returned_id(rows: Seq<Vec<SqlValue>>) -> Option<i64> {
    if rows.len() > 0 && rows[0]@.len() > 0 {
        integer_of(rows[0]@[0])
    } else {
        None
    }
}

/// `id` is the id that an insert returned.
pub open spec fn returns_id(rows: Seq<Vec<SqlValue>>, id: i64) -> bool {
    returned_id(rows) == Some(id)
}

/// An insert that returned no id.
pub open spec fn no_returned_id(rows: Seq<Vec<SqlValue>>) -> bool {
    returned_id(rows) is None
}

/// Reads the id returned by an insert.
pub fn read_returned_id(rows: &Vec<Vec<SqlValue>>) -> (r: Result<i64, SqliteError>)
    ensures
        r is Ok <==> returned_id(rows@) is Some,
        r is Err <==> no_returned_id(rows@),
        r matches Ok(id) ==> returns_id(rows@, id),
        r is Err ==> r->Err_0 is SerializationError,
{
    if rows.len() == 0 {
        return Err(SqliteError::SerializationError(String::from_str("no row returned")));
    }
    match integer_at(&rows[0], 0) {
        Some(id) => Ok(id),
        None => Err(SqliteError::SerializationError(String::from_str("returned id is not an integer"))),
    }
}

/// A history row: two texts, author and content.
pub open spec fn pair_row(row: Seq<SqlValue>) -> bool {
    row.len() >= 2 && text_of(row[0]) is Some && text_of(row[1]) is Some
}

/// The first `limit` rows, or all of them where `limit` is negative.
pub open spec fn limited<A>(s: Seq<A>, limit: i64) -> Seq<A> {
    if limit >= 0 && s.len() > limit {
        s.subrange(0, limit as int)
    } else {
        s
    }
}

/// Every row kept under `limit` is a history row.
pub open spec fn pairs_readable(rows: Seq<Vec<SqlValue>>, limit: i64) -> bool {
    forall|i: int| 0 <= i < limited(rows, limit).len() ==> #[trigger] pair_row(limited(rows, limit)[i]@)
}

/// Some row kept under `limit` is not a history row.
pub open spec fn pairs_unreadable(rows: Seq<Vec<SqlValue>>, limit: i64) -> bool {
    !pairs_readable(rows, limit)
}

/// `v` holds the (author, content) texts of the rows kept under `limit`.
pub open spec fn pairs_read(rows: Seq<Vec<SqlValue>>, limit: i64, v: Seq<(String, String)>) -> bool {
    &&& v.len() == limited(rows, limit).len()
    &&& forall|i: int|
        0 <= i < v.len() ==> text_of(limited(rows, limit)[i]@[0]) == Some(#[trigger] v[i].0@) && text_of(
            limited(rows, limit)[i]@[1],
        ) == Some(v[i].1@)
}

/// Reads (author, content) pairs, keeping at most `limit` of them in order;
/// fails when a kept row has another shape.
pub fn read_pairs(rows: &Vec<Vec<SqlValue>>, limit: i64) -> (r: Result<Vec<(String, String)>, SqliteError>)
    ensures
        r is Ok <==> pairs_readable(rows@, limit),
        r is Err <==> pairs_unreadable(rows@, limit),
        r matches Ok(v) ==> pairs_read(rows@, limit, v@),
        r is Err ==> r->Err_0 is SerializationError,
{
    let len = rows.len();
    let n: usize = if limit >= 0 && (limit as u64) < (len as u64) {
        limit as usize
    } else {
        len
    };
    let ghost kept = limited(rows@, limit);
    assert(kept.len() == n);
    assert(forall|i: int| 0 <= i < n ==> kept[i] == rows@[i]);
    let mut v: Vec<(String, String)> = Vec::new();
    let mut i: usize = 0;
    while i < n
        invariant
            i <= n,
            kept == limited(rows@, limit),
            kept.len() == n,
            n <= rows@.len(),
            forall|j: int| 0 <= j < n ==> kept[j] == rows@[j],
            v@.len() == i,
            forall|j: int| 0 <= j < i ==> #[trigger] pair_row(kept[j]@),
            forall|j: int|
                0 <= j < i ==> text_of(kept[j]@[0]) == Some(#[trigger] v@[j].0@) && text_of(kept[j]@[1])
                    == Some(v@[j].1@),
        decreases n - i,
    {
        let a = text_at(&rows[i], 0);
        let b = text_at(&rows[i], 1);
        match (a, b) {
            (Some(a), Some(b)) => {
                v.push((a, b));
            },
            _ => {
                assert(!pair_row(kept[i as int]@));
                return Err(SqliteError::SerializationError(String::from_str("history row is not two texts")));
            },
        }
        i = i + 1;
    }
    assert forall|j: int| 0 <= j < v@.len() implies text_of(limited(rows@, limit)[j]@[0]) == Some(
        #[trigger] v@[j].0@,
    ) && text_of(limited(rows@, limit)[j]@[1]) == Some(v@[j].1@) by {
        assert(text_of(kept[j]@[0]) == Some(v@[j].0@));
    }
    assert(v@.len() == limited(rows@, limit).len());
    assert(pairs_read(rows@, limit, v@));
    Ok(v)
}

/// Where the first row is a channel, that channel; `None` for no rows.
pub open spec fn first_channel(rows: Seq<Vec<SqlValue>>, r: Option<Channel>) -> bool {
    match r {
        None => rows.len() == 0,
        Some(c) => rows.len() > 0 && channel_matches(rows[0]@, c),
    }
}

/// The first row is not a channel.
pub open spec fn first_channel_unreadable(rows: Seq<Vec<SqlValue>>) -> bool {
    rows.len() > 0 && !channel_row(rows[0]@)
}

/// Reads the first row as a channel; no rows read as `None`.
pub fn read_first_channel(rows: &Vec<Vec<SqlValue>>) -> (r: Result<Option<Channel>, SqliteError>)
    ensures
        r is Err <==> first_channel_unreadable(rows@),
        r matches Ok(c) ==> first_channel(rows@, c),
        r is Err ==> r->Err_0 is SerializationError,
{
    if rows.len() == 0 {
        return Ok(None);
    }
    match Channel::from_row(&rows[0]) {
        Some(c) => Ok(Some(c)),
        None => Err(SqliteError::SerializationError(String::from_str("row is not a channel"))),
    }
}

/// Where the first row is an account, that account; `None` for no rows.
pub open spec fn first_account(rows: Seq<Vec<SqlValue>>, r: Option<Account>) -> bool {
    match r {
        None => rows.len() == 0,
        Some(a) => rows.len() > 0 && account_matches(rows[0]@, a),
    }
}

/// The first row is not an account.
pub open spec fn first_account_unreadable(rows: Seq<Vec<SqlValue>>) -> bool {
    rows.len() > 0 && !account_row(rows[0]@)
}

/// Reads the first row as an account; no rows read as `None`.
pub fn read_first_account(rows: &Vec<Vec<SqlValue>>) -> (r: Result<Option<Account>, SqliteError>)
    ensures
        r is Err <==> first_account_unreadable(rows@),
        r matches Ok(a) ==> first_account(rows@, a),
        r is Err ==> r->Err_0 is SerializationError,
{
    if rows.len() == 0 {
        return Ok(None);
    }
    match Account::from_row(&rows[0]) {
        Some(a) => Ok(Some(a)),
        None => Err(SqliteError::SerializationError(String::from_str("row is not an account"))),
    }
}

/// `v` holds one channel per row, in order.
pub open spec fn channels_read(rows: Seq<Vec<SqlValue>>, v: Seq<Channel>) -> bool {
    v.len() == rows.len() && forall|i: int| 0 <= i < v.len() ==> #[trigger] channel_matches(rows[i]@, v[i])
}

/// Some row is not a channel.
pub open spec fn some_row_not_channel(rows: Seq<Vec<SqlValue>>) -> bool {
    exists|i: int| 0 <= i < rows.len() && !#[trigger] channel_row(rows[i]@)
}

/// Reads every row as a channel; fails when one is not.
pub fn read_channels(rows: &Vec<Vec<SqlValue>>) -> (r: Result<Vec<Channel>, SqliteError>)
    ensures
        r is Ok <==> forall|i: int| 0 <= i < rows@.len() ==> #[trigger] channel_row(rows@[i]@),
        r is Err <==> some_row_not_channel(rows@),
        r matches Ok(v) ==> channels_read(rows@, v@),
        r is Err ==> r->Err_0 is SerializationError,
{
    let mut v: Vec<Channel> = Vec::new();
    let mut i: usize = 0;
    while i < rows.len()
        invariant
            i <= rows@.len(),
            v@.len() == i,
            forall|j: int| 0 <= j < i ==> #[trigger] channel_row(rows@[j]@),
            forall|j: int| 0 <= j < i ==> #[trigger] channel_matches(rows@[j]@, v@[j]),
        decreases rows@.len() - i,
    {
        match Channel::from_row(&rows[i]) {
            Some(c) => v.push(c),
            None => {
                return Err(SqliteError::SerializationError(String::from_str("row is not a channel")));
            },
        }
        i = i + 1;
    }
    Ok(v)
}

/// Where the first row is a message, that message; `None` for no rows.
pub open spec fn first_message(rows: Seq<Vec<SqlValue>>, r: Option<Message>) -> bool {
    match r {
        None => rows.len() == 0,
        Some(m) => rows.len() > 0 && Message::row_matches(rows[0]@, m),
    }
}

/// The first row is not a message.
pub open spec fn first_message_unreadable(rows: Seq<Vec<SqlValue>>) -> bool {
    rows.len() > 0 && !Message::row_readable(rows[0]@)
}

/// Reads the first row as a message; no rows read as `None`.
pub fn read_first_message(rows: &Vec<Vec<SqlValue>>) -> (r: Result<Option<Message>, SqliteError>)
    ensures
        r is Err <==> first_message_unreadable(rows@),
        r matches Ok(m) ==> first_message(rows@, m),
        r is Err ==> r->Err_0 is SerializationError,
{
    if rows.len() == 0 {
        return Ok(None);
    }
    match Message::from_row(&rows[0]) {
        Some(m) => Ok(Some(m)),
        None => Err(SqliteError::SerializationError(String::from_str("row is not a message"))),
    }
}

/// `v` holds one message per row, in order.
pub open spec fn messages_read(rows: Seq<Vec<SqlValue>>, v: Seq<Message>) -> bool {
    v.len() == rows.len() && forall|i: int| 0 <= i < v.len() ==> #[trigger] Message::row_matches(rows[i]@, v[i])
}

/// Some row is not a message.
pub open spec fn some_row_not_message(rows: Seq<Vec<SqlValue>>) -> bool {
    exists|i: int| 0 <= i < rows.len() && !#[trigger] Message::row_readable(rows[i]@)
}

/// Reads every row as a message; fails when one is not.
pub fn read_messages(rows: &Vec<Vec<SqlValue>>) -> (r: Result<Vec<Message>, SqliteError>)
    ensures
        r is Ok <==> forall|i: int| 0 <= i < rows@.len() ==> #[trigger] Message::row_readable(rows@[i]@),
        r is Err <==> some_row_not_message(rows@),
        r matches Ok(v) ==> messages_read(rows@, v@),
        r is Err ==> r->Err_0 is SerializationError,
{
    let mut v: Vec<Message> = Vec::new();
    let mut i: usize = 0;
    while i < rows.len()
        invariant
            i <= rows@.len(),
            v@.len() == i,
            forall|j: int| 0 <= j < i ==> #[trigger] Message::row_readable(rows@[j]@),
            forall|j: int| 0 <= j < i ==> #[trigger] Message::row_matches(rows@[j]@, v@[j]),
        decreases rows@.len() - i,
    {
        match Message::from_row(&rows[i]) {
            Some(m) => v.push(m),
            None => {
                return Err(SqliteError::SerializationError(String::from_str("row is not a message")));
            },
        }
        i = i + 1;
    }
    Ok(v)
}

/// The statement that records a message's channel, or refreshes its
/// timestamp when it exists.
pub open spec fn channel_upsert_sent(m: Message) -> Sent {
    (
        "INSERT INTO channels (channel_id, channel_type, source, name, created_at, updated_at) VALUES (?1, ?2, ?3, NULL, CURRENT_TIMESTAMP, CURRENT_TIMESTAMP) ON CONFLICT (channel_id) DO UPDATE SET updated_at = CURRENT_TIMESTAMP"@,
        seq![
            Bound::Text(m.channel_id@),
            Bound::Text(m.channel_type.name_of()),
            Bound::Text(m.source.name_of()),
        ],
    )
}

/// Two messages of one channel send the same channel statement with the same
/// key, an insert that updates the existing row on a conflicting
/// `channel_id`; with different message ids their message rows have
/// different keys.
pub proof fn same_channel_one_channel_statement(m1: Message, m2: Message)
    requires
        m1.channel_id@ == m2.channel_id@,
        m1.id@ != m2.id@,
    ensures
        channel_upsert_sent(m1).0 == channel_upsert_sent(m2).0,
        channel_upsert_sent(m1).1[0] == channel_upsert_sent(m2).1[0],
        m1.record_values()[0] != m2.record_values()[0],
{
}

/// The transaction that stores a message with row id `rowid`: BEGIN, the
/// channel upsert, the message row and its embedding rows, COMMIT.
pub open spec fn message_statements(m: Message, vecs: Seq<Seq<u32>>, rowid: i64) -> Seq<Sent> {
    seq![begin_sent(), channel_upsert_sent(m)] + record_statements(
        Message::table_name(),
        m.record_id(),
        m.record_values(),
        vecs,
        rowid,
    ) + seq![commit_sent()]
}

/// The statements that create the account and channel tables.
pub open spec fn dimension_statements() -> Seq<Sent> {
    seq![
        begin_sent(),
        (
            "CREATE TABLE IF NOT EXISTS accounts (id INTEGER PRIMARY KEY AUTOINCREMENT, name TEXT NOT NULL, source_id TEXT NOT NULL UNIQUE, source TEXT NOT NULL, created_at TIMESTAMP DEFAULT CURRENT_TIMESTAMP, updated_at TIMESTAMP DEFAULT CURRENT_TIMESTAMP)"@,
            Seq::empty(),
        ),
        (
            "CREATE INDEX IF NOT EXISTS idx_source_id_source ON accounts(source_id, source)"@,
            Seq::empty(),
        ),
        (
            "CREATE TABLE IF NOT EXISTS channels (id INTEGER PRIMARY KEY AUTOINCREMENT, channel_id TEXT NOT NULL UNIQUE, channel_type TEXT NOT NULL, source TEXT NOT NULL, name TEXT, created_at TIMESTAMP DEFAULT CURRENT_TIMESTAMP, updated_at TIMESTAMP DEFAULT CURRENT_TIMESTAMP)"@,
            Seq::empty(),
        ),
        (
            "CREATE INDEX IF NOT EXISTS idx_channel_id_type ON channels(channel_id, channel_type)"@,
            Seq::empty(),
        ),
        commit_sent(),
    ]
}

/// The stores of the knowledge base; both share one embedding width.
pub struct KnowledgeBase {
    pub document_store: SqliteVectorStore<Document>,
    pub message_store: SqliteVectorStore<Message>,
}

impl KnowledgeBase {
    pub open spec fn wf(&self) -> bool {
        &&& self.document_store.wf()
        &&& self.message_store.wf()
        &&& self.document_store.dims == self.message_store.dims
    }

    /// A knowledge base over tables that already exist.
    pub fn attach(dims: usize) -> (r: KnowledgeBase)
        requires
            4 * dims <= usize::MAX,
        ensures
            r.wf(),
            r.message_store.dims == dims,
    {
        KnowledgeBase { document_store: SqliteVectorStore::attach(dims), message_store: SqliteVectorStore::attach(dims) }
    }

    /// Creates, if missing, the document and message stores with embeddings
    /// of width `dims`, and the account and channel tables.
    pub fn new(db: &mut Db, dims: usize) -> (r: Result<KnowledgeBase, SqliteError>)
        requires
            4 * dims <= usize::MAX,
        ensures
            final(db).conn == old(db).conn,
            r matches Ok(kb) ==> kb.wf() && kb.message_store.dims == dims,
            r is Ok ==> exists|docs_done: Seq<Sent>, messages_done: Seq<Sent>|
                #[trigger] store_created::<Document>(old(db).log@, docs_done, dims as nat)
                    && #[trigger] store_created::<Message>(docs_done, messages_done, dims as nat)
                    && messages_done + dimension_statements() == final(db).log@,
            r is Err ==> r->Err_0 is DatabaseError,
            r is Err ==> store_aborted::<Document>(old(db).log@, final(db).log@, dims as nat)
                || exists|docs_done: Seq<Sent>|
                #[trigger] store_created::<Document>(old(db).log@, docs_done, dims as nat) && (
                store_aborted::<Message>(docs_done, final(db).log@, dims as nat) || exists|
                    messages_done: Seq<Sent>,
                |
                    #[trigger] store_created::<Message>(docs_done, messages_done, dims as nat)
                        && aborted_within(messages_done, final(db).log@, dimension_statements())),
    {
        proof {
            crate::table::record_names_are_identifiers();
        }
        let document_store = SqliteVectorStore::<Document>::new(db, dims)?;
        let ghost docs_done = db.log@;
        let message_store = match SqliteVectorStore::<Message>::new(db, dims) {
            Ok(s) => s,
            Err(e) => {
                assert(store_created::<Document>(old(db).log@, docs_done, dims as nat));
                return Err(e);
            },
        };
        let ghost start = db.log@;
        let ghost dim = dimension_statements();
        proof {
            assert(store_created::<Document>(old(db).log@, docs_done, dims as nat));
            assert(store_created::<Message>(docs_done, start, dims as nat));
        }
        match exec_plain(db, "BEGIN") {
            Ok(()) => {},
            Err(e) => {
                assert(db.log@ =~= start + dim.subrange(0, 1));
                assert(aborted_within(start, db.log@, dim));
                return Err(e);
            },
        }
        let ghost opened = db.log@;
        let made = Self::create_dimension_tables(db);
        match made {
            Ok(()) => {},
            Err(e) => {
                let ghost failed = db.log@;
                let _ = exec_plain(db, "ROLLBACK");
                proof {
                    let sub = dim.subrange(1, 5);
                    let k = choose|k: int| 1 <= k <= sub.len() && failed == opened + #[trigger] sub.subrange(0, k);
                    assert(dim.subrange(0, k + 1) =~= dim.subrange(0, 1) + sub.subrange(0, k));
                    assert(db.log@ =~= start + dim.subrange(0, k + 1) + seq![rollback_sent()]);
                    assert(aborted_within(start, db.log@, dim));
                }
                return Err(e);
            },
        }
        assert(db.log@ =~= start + dim.subrange(0, 5));
        match exec_plain(db, "COMMIT") {
            Ok(()) => {},
            Err(e) => {
                let _ = exec_plain(db, "ROLLBACK");
                proof {
                    assert(dim.subrange(0, 6) =~= dim);
                    assert(db.log@ =~= start + dim.subrange(0, 6) + seq![rollback_sent()]);
                    assert(aborted_within(start, db.log@, dim));
                }
                return Err(e);
            },
        }
        assert(db.log@ =~= start + dimension_statements());
        assert(store_created::<Document>(old(db).log@, docs_done, dims as nat));
        assert(store_created::<Message>(docs_done, start, dims as nat));
        Ok(KnowledgeBase { document_store, message_store })
    }

    /// Creates, if missing, the account and channel tables and their indexes.
    pub fn create_dimension_tables(db: &mut Db) -> (r: Result<(), SqliteError>)
        ensures
            final(db).conn == old(db).conn,
            r is Ok ==> final(db).log@ == old(db).log@ + dimension_statements().subrange(1, 5),
            r is Err ==> sent_prefix(old(db).log@, final(db).log@, dimension_statements().subrange(1, 5)),
            r is Err ==> r->Err_0 is DatabaseError,
    {
        let ghost start = db.log@;
        let ghost sub = dimension_statements().subrange(1, 5);
        let r = exec_plain(db, "CREATE TABLE IF NOT EXISTS accounts (id INTEGER PRIMARY KEY AUTOINCREMENT, name TEXT NOT NULL, source_id TEXT NOT NULL UNIQUE, source TEXT NOT NULL, created_at TIMESTAMP DEFAULT CURRENT_TIMESTAMP, updated_at TIMESTAMP DEFAULT CURRENT_TIMESTAMP)");
        assert(db.log@ =~= start + sub.subrange(0, 1));
        if r.is_err() {
            return r;
        }
        let r = exec_plain(db, "CREATE INDEX IF NOT EXISTS idx_source_id_source ON accounts(source_id, source)");
        assert(db.log@ =~= start + sub.subrange(0, 2));
        if r.is_err() {
            return r;
        }
        let r = exec_plain(db, "CREATE TABLE IF NOT EXISTS channels (id INTEGER PRIMARY KEY AUTOINCREMENT, channel_id TEXT NOT NULL UNIQUE, channel_type TEXT NOT NULL, source TEXT NOT NULL, name TEXT, created_at TIMESTAMP DEFAULT CURRENT_TIMESTAMP, updated_at TIMESTAMP DEFAULT CURRENT_TIMESTAMP)");
        assert(db.log@ =~= start + sub.subrange(0, 3));
        if r.is_err() {
            return r;
        }
        let r = exec_plain(db, "CREATE INDEX IF NOT EXISTS idx_channel_id_type ON channels(channel_id, channel_type)");
        assert(db.log@ =~= start + sub.subrange(0, 4));
        if r.is_err() {
            return r;
        }
        assert(sub.subrange(0, 4) =~= sub);
        Ok(())
    }

    /// Stores a message and its embeddings in one transaction: first the
    /// message's channel is recorded (or its timestamp refreshed), then the
    /// message row and its embedding rows are written. Returns the message's
    /// row id. An embedding of the wrong width is refused before anything is
    /// sent; any later failure ends in a rollback.
    pub fn create_message(&self, db: &mut Db, msg: Message, embeddings: Vec<Embedding>) -> (r: Result<
        i64,
        SqliteError,
    >)
        requires
            self.wf(),
        ensures
            final(db).conn == old(db).conn,
            r matches Err(SqliteError::DimensionMismatch { .. }) <==> exists|j: int|
                0 <= j < embeddings@.len() && #[trigger] embeddings@[j].vec@.len() != self.message_store.dims,
            r matches Err(SqliteError::DimensionMismatch { .. }) ==> final(db).log@ == old(db).log@,
            r matches Err(SqliteError::DatabaseError(_)) ==> exists|rowid: i64|
                #[trigger] aborted_within(
                    old(db).log@,
                    final(db).log@,
                    message_statements(msg, vectors(embeddings@), rowid),
                ),
            r is Err ==> r->Err_0 is DatabaseError || r->Err_0 is DimensionMismatch,
            r matches Ok(id) ==> final(db).log@ == old(db).log@ + seq![begin_sent(), channel_upsert_sent(msg)]
                + record_statements(
                Message::table_name(),
                msg.record_id(),
                msg.record_values(),
                vectors(embeddings@),
                id,
            ) + seq![commit_sent()],
    {
        let ghost m = msg;
        let ghost embs = embeddings;
        let channel_params = vec![
            Param::Text(msg.channel_id.clone()),
            Param::Text(String::from_str(msg.channel_type.as_str())),
            Param::Text(String::from_str(msg.source.as_str())),
        ];
        let batch = vec![(msg, embeddings)];
        assert(batch_embeddings(batch@) =~= seq![embs]);
        proof {
            if !batch_fits(batch_embeddings(batch@), self.message_store.dims as nat) {
                let (k, j) = choose|k: int, j: int| 0 <= k < batch_embeddings(batch@).len() && 0 <= j
                    < batch_embeddings(batch@)[k]@.len() && #[trigger] batch_embeddings(batch@)[k]@[j].vec@.len()
                    != self.message_store.dims;
                assert(embs@[j].vec@.len() != self.message_store.dims);
            }
        }
        self.message_store.check_widths(&batch)?;
        proof {
            assert forall|j: int| 0 <= j < embs@.len() implies #[trigger] embs@[j].vec@.len()
                == self.message_store.dims by {
                assert(batch_embeddings(batch@)[0] == embs);
            }
        }
        let ghost vecs = vectors(embs@);
        match exec_plain(db, "BEGIN") {
            Ok(()) => {},
            Err(e) => {
                assert(db.log@ =~= old(db).log@ + message_statements(m, vecs, 0).subrange(0, 1));
                assert(aborted_within(old(db).log@, db.log@, message_statements(m, vecs, 0)));
                return Err(e);
            },
        }
        assert(bounds(channel_params@) =~= channel_upsert_sent(m).1);
        match exec(
            db,
            "INSERT INTO channels (channel_id, channel_type, source, name, created_at, updated_at) VALUES (?1, ?2, ?3, NULL, CURRENT_TIMESTAMP, CURRENT_TIMESTAMP) ON CONFLICT (channel_id) DO UPDATE SET updated_at = CURRENT_TIMESTAMP",
            &channel_params,
        ) {
            Ok(_) => {},
            Err(e) => {
                let _ = exec_plain(db, "ROLLBACK");
                proof {
                    assert(db.log@ =~= old(db).log@ + message_statements(m, vecs, 0).subrange(0, 2) + seq![
                        rollback_sent(),
                    ]);
                    assert(aborted_within(old(db).log@, db.log@, message_statements(m, vecs, 0)));
                }
                return Err(e);
            },
        }
        let ghost opened = db.log@;
        match self.message_store.add_rows_with_txn(db, &batch) {
            Ok(id) => {
                let ghost written = db.log@;
                match exec_plain(db, "COMMIT") {
                    Ok(()) => {
                        proof {
                            let rowids = choose|rowids: Seq<i64>|
                                rowids.len() == batch@.len() && written == opened
                                    + crate::store::batch_statements(batch@, rowids) && id == (if batch@.len()
                                    == 0 {
                                    0
                                } else {
                                    rowids.last()
                                });
                            assert(batch@.drop_last() =~= Seq::<(Message, Vec<Embedding>)>::empty());
                            assert(batch@.last() == (m, embs));
                            assert(rowids.last() == id);
                            assert(crate::store::batch_statements(batch@.drop_last(), rowids.drop_last())
                                == Seq::<Sent>::empty());
                            assert(crate::store::batch_statements(batch@, rowids) == crate::store::batch_statements(batch@.drop_last(), rowids.drop_last()) + record_statements(
                                Message::table_name(),
                                m.record_id(),
                                m.record_values(),
                                vectors(embs@),
                                id,
                            ));
                            assert(crate::store::batch_statements(batch@, rowids) =~= record_statements(
                                Message::table_name(),
                                m.record_id(),
                                m.record_values(),
                                vectors(embs@),
                                id,
                            ));
                            assert(db.log@ =~= old(db).log@ + seq![begin_sent(), channel_upsert_sent(m)]
                                + record_statements(
                                Message::table_name(),
                                m.record_id(),
                                m.record_values(),
                                vectors(embs@),
                                id,
                            ) + seq![commit_sent()]);
                        }
                        Ok(id)
                    },
                    Err(e) => {
                        let _ = exec_plain(db, "ROLLBACK");
                        proof {
                            let rowids = choose|rowids: Seq<i64>|
                                rowids.len() == batch@.len() && written == opened
                                    + crate::store::batch_statements(batch@, rowids) && id == (if batch@.len()
                                    == 0 {
                                    0
                                } else {
                                    rowids.last()
                                });
                            assert(batch@.drop_last() =~= Seq::<(Message, Vec<Embedding>)>::empty());
                            assert(batch@.last() == (m, embs));
                            assert(crate::store::batch_statements(batch@.drop_last(), rowids.drop_last())
                                == Seq::<Sent>::empty());
                            assert(crate::store::batch_statements(batch@, rowids) =~= record_statements(
                                Message::table_name(),
                                m.record_id(),
                                m.record_values(),
                                vecs,
                                id,
                            ));
                            let ms = message_statements(m, vecs, id);
                            assert(ms.subrange(0, ms.len() as int) =~= ms);
                            assert(db.log@ =~= old(db).log@ + ms.subrange(0, ms.len() as int) + seq![
                                rollback_sent(),
                            ]);
                            assert(aborted_within(old(db).log@, db.log@, ms));
                        }
                        Err(e)
                    },
                }
            },
            Err(e) => {
                let ghost failed = db.log@;
                let _ = exec_plain(db, "ROLLBACK");
                proof {
                    if e is DatabaseError {
                        let (k, ids, x, mm) = choose|k: int, ids: Seq<i64>, x: i64, mm: int|
                            0 <= k < batch@.len() && ids.len() == k && 1 <= mm <= 2 + batch@[k].1@.len()
                                && failed == #[trigger] stopped_batch::<Message>(opened, batch@, k, ids, x, mm);
                        assert(k == 0);
                        assert(batch@.subrange(0, 0) =~= Seq::<(Message, Vec<Embedding>)>::empty());
                        assert(ids =~= Seq::<i64>::empty());
                        assert(crate::store::batch_statements(batch@.subrange(0, 0), ids) == Seq::<Sent>::empty());
                        let rec = record_statements(Message::table_name(), m.record_id(), m.record_values(), vecs, x);
                        let ms = message_statements(m, vecs, x);
                        assert(ms.subrange(0, 2 + mm) =~= seq![begin_sent(), channel_upsert_sent(m)] + rec.subrange(0, mm));
                        assert(db.log@ =~= old(db).log@ + ms.subrange(0, 2 + mm) + seq![rollback_sent()]);
                        assert(aborted_within(old(db).log@, db.log@, ms));
                    }
                }
                Err(e)
            },
        }
    }

    /// Records an account, or refreshes its timestamp when one with the same
    /// `source_id` exists; returns the account's id.
    pub fn create_user(&self, db: &mut Db, name: &str, source: &str, source_id: &str) -> (r: Result<
        i64,
        SqliteError,
    >)
        ensures
            final(db).conn == old(db).conn,
            final(db).log@ == old(db).log@.push(
                (
                    "INSERT INTO accounts (name, source, source_id, created_at, updated_at) VALUES (?1, ?2, ?3, CURRENT_TIMESTAMP, CURRENT_TIMESTAMP) ON CONFLICT(source_id) DO UPDATE SET updated_at = CURRENT_TIMESTAMP RETURNING id"@,
                    seq![Bound::Text(name@), Bound::Text(source@), Bound::Text(source_id@)],
                ),
            ),
            r is Err ==> r->Err_0 is DatabaseError || r->Err_0 is SerializationError,
            r matches Err(SqliteError::SerializationError(_)) ==> exists|rows: Seq<Vec<SqlValue>>|
                #[trigger] no_returned_id(rows),
            r is Ok ==> exists|rows: Seq<Vec<SqlValue>>| #[trigger] returns_id(rows, r->Ok_0),
    {
        let p = vec![
            Param::Text(String::from_str(name)),
            Param::Text(String::from_str(source)),
            Param::Text(String::from_str(source_id)),
        ];
        assert(bounds(p@) =~= seq![Bound::Text(name@), Bound::Text(source@), Bound::Text(source_id@)]);
        let rows = exec(
            db,
            "INSERT INTO accounts (name, source, source_id, created_at, updated_at) VALUES (?1, ?2, ?3, CURRENT_TIMESTAMP, CURRENT_TIMESTAMP) ON CONFLICT(source_id) DO UPDATE SET updated_at = CURRENT_TIMESTAMP RETURNING id",
            &p,
        )?;
        read_returned_id(&rows)
    }

    /// The account with the given `source_id` (its id on its platform), if
    /// any.
    pub fn get_user_by_source(&self, db: &mut Db, source: &str) -> (r: Result<Option<Account>, SqliteError>)
        ensures
            final(db).conn == old(db).conn,
            final(db).log@ == old(db).log@.push(
                (
                    "SELECT id, name, source_id, source, created_at, updated_at FROM accounts WHERE source_id = ?1"@,
                    seq![Bound::Text(source@)],
                ),
            ),
            r is Err ==> r->Err_0 is DatabaseError || r->Err_0 is SerializationError,
            r matches Err(SqliteError::SerializationError(_)) ==> exists|rows: Seq<Vec<SqlValue>>|
                #[trigger] first_account_unreadable(rows),
            r is Ok ==> exists|rows: Seq<Vec<SqlValue>>| #[trigger] first_account(rows, r->Ok_0),
    {
        let p = vec![Param::Text(String::from_str(source))];
        assert(bounds(p@) =~= seq![Bound::Text(source@)]);
        let rows = exec(
            db,
            "SELECT id, name, source_id, source, created_at, updated_at FROM accounts WHERE source_id = ?1",
            &p,
        )?;
        read_first_account(&rows)
    }

    /// Records a channel, or refreshes its timestamp (and its name, when one
    /// is given) when one with the same `channel_id` exists; returns the
    /// channel's id.
    pub fn create_channel(
        &self,
        db: &mut Db,
        channel_id: &str,
        channel_type: &str,
        name: Option<String>,
        source: &str,
    ) -> (r: Result<i64, SqliteError>)
        ensures
            final(db).conn == old(db).conn,
            final(db).log@ == old(db).log@.push(
                (
                    "INSERT INTO channels (channel_id, channel_type, source, name, created_at, updated_at) VALUES (?1, ?2, ?3, ?4, CURRENT_TIMESTAMP, CURRENT_TIMESTAMP) ON CONFLICT(channel_id) DO UPDATE SET name = COALESCE(?4, name), updated_at = CURRENT_TIMESTAMP RETURNING id"@,
                    seq![
                        Bound::Text(channel_id@),
                        Bound::Text(channel_type@),
                        Bound::Text(source@),
                        match name {
                            Some(n) => Bound::Text(n@),
                            None => Bound::Null,
                        },
                    ],
                ),
            ),
            r is Err ==> r->Err_0 is DatabaseError || r->Err_0 is SerializationError,
            r matches Err(SqliteError::SerializationError(_)) ==> exists|rows: Seq<Vec<SqlValue>>|
                #[trigger] no_returned_id(rows),
            r is Ok ==> exists|rows: Seq<Vec<SqlValue>>| #[trigger] returns_id(rows, r->Ok_0),
    {
        let ghost nm = name;
        let name_param = match name {
            Some(n) => Param::Text(n),
            None => Param::Null,
        };
        let p = vec![
            Param::Text(String::from_str(channel_id)),
            Param::Text(String::from_str(channel_type)),
            Param::Text(String::from_str(source)),
            name_param,
        ];
        assert(bounds(p@) =~= seq![
            Bound::Text(channel_id@),
            Bound::Text(channel_type@),
            Bound::Text(source@),
            match nm {
                Some(n) => Bound::Text(n@),
                None => Bound::Null,
            },
        ]);
        let rows = exec(
            db,
            "INSERT INTO channels (channel_id, channel_type, source, name, created_at, updated_at) VALUES (?1, ?2, ?3, ?4, CURRENT_TIMESTAMP, CURRENT_TIMESTAMP) ON CONFLICT(channel_id) DO UPDATE SET name = COALESCE(?4, name), updated_at = CURRENT_TIMESTAMP RETURNING id",
            &p,
        )?;
        read_returned_id(&rows)
    }

    /// The channel with the given id, if any.
    pub fn get_channel(&self, db: &mut Db, id: i64) -> (r: Result<Option<Channel>, SqliteError>)
        ensures
            final(db).conn == old(db).conn,
            final(db).log@ == old(db).log@.push(
                (
                    "SELECT id, channel_id, channel_type, source, name, created_at, updated_at FROM channels WHERE id = ?1"@,
                    seq![Bound::Integer(id)],
                ),
            ),
            r is Err ==> r->Err_0 is DatabaseError || r->Err_0 is SerializationError,
            r matches Err(SqliteError::SerializationError(_)) ==> exists|rows: Seq<Vec<SqlValue>>|
                #[trigger] first_channel_unreadable(rows),
            r is Ok ==> exists|rows: Seq<Vec<SqlValue>>| #[trigger] first_channel(rows, r->Ok_0),
    {
        let p = vec![Param::Integer(id)];
        assert(bounds(p@) =~= seq![Bound::Integer(id)]);
        let rows = exec(
            db,
            "SELECT id, channel_id, channel_type, source, name, created_at, updated_at FROM channels WHERE id = ?1",
            &p,
        )?;
        read_first_channel(&rows)
    }

    /// The channel with the given external id and source, if any.
    pub fn get_channel_by_channel_id(&self, db: &mut Db, channel_id: &str, source: &str) -> (r: Result<
        Option<Channel>,
        SqliteError,
    >)
        ensures
            final(db).conn == old(db).conn,
            final(db).log@ == old(db).log@.push(
                (
                    "SELECT id, channel_id, channel_type, source, name, created_at, updated_at FROM channels WHERE channel_id = ?1 AND source = ?2"@,
                    seq![Bound::Text(channel_id@), Bound::Text(source@)],
                ),
            ),
            r is Err ==> r->Err_0 is DatabaseError || r->Err_0 is SerializationError,
            r matches Err(SqliteError::SerializationError(_)) ==> exists|rows: Seq<Vec<SqlValue>>|
                #[trigger] first_channel_unreadable(rows),
            r is Ok ==> exists|rows: Seq<Vec<SqlValue>>| #[trigger] first_channel(rows, r->Ok_0),
    {
        let p = vec![Param::Text(String::from_str(channel_id)), Param::Text(String::from_str(source))];
        assert(bounds(p@) =~= seq![Bound::Text(channel_id@), Bound::Text(source@)]);
        let rows = exec(
            db,
            "SELECT id, channel_id, channel_type, source, name, created_at, updated_at FROM channels WHERE channel_id = ?1 AND source = ?2",
            &p,
        )?;
        read_first_channel(&rows)
    }

    /// Every channel of the given source.
    pub fn get_channels_by_source(&self, db: &mut Db, source: &str) -> (r: Result<Vec<Channel>, SqliteError>)
        ensures
            final(db).conn == old(db).conn,
            final(db).log@ == old(db).log@.push(
                (
                    "SELECT id, channel_id, channel_type, source, name, created_at, updated_at FROM channels WHERE source = ?1"@,
                    seq![Bound::Text(source@)],
                ),
            ),
            r is Err ==> r->Err_0 is DatabaseError || r->Err_0 is SerializationError,
            r matches Err(SqliteError::SerializationError(_)) ==> exists|rows: Seq<Vec<SqlValue>>|
                #[trigger] some_row_not_channel(rows),
            r is Ok ==> exists|rows: Seq<Vec<SqlValue>>| #[trigger] channels_read(rows, r->Ok_0@),
    {
        let p = vec![Param::Text(String::from_str(source))];
        assert(bounds(p@) =~= seq![Bound::Text(source@)]);
        let rows = exec(
            db,
            "SELECT id, channel_id, channel_type, source, name, created_at, updated_at FROM channels WHERE source = ?1",
            &p,
        )?;
        read_channels(&rows)
    }

    /// The message stored under the given row id, if any.
    pub fn get_message(&self, db: &mut Db, id: i64) -> (r: Result<Option<Message>, SqliteError>)
        ensures
            final(db).conn == old(db).conn,
            final(db).log@ == old(db).log@.push(
                (
                    "SELECT id, source, source_id, channel_type, channel_id, account_id, role, content, created_at FROM messages WHERE rowid = ?1"@,
                    seq![Bound::Integer(id)],
                ),
            ),
            r is Err ==> r->Err_0 is DatabaseError || r->Err_0 is SerializationError,
            r matches Err(SqliteError::SerializationError(_)) ==> exists|rows: Seq<Vec<SqlValue>>|
                #[trigger] first_message_unreadable(rows),
            r is Ok ==> exists|rows: Seq<Vec<SqlValue>>| #[trigger] first_message(rows, r->Ok_0),
    {
        let p = vec![Param::Integer(id)];
        assert(bounds(p@) =~= seq![Bound::Integer(id)]);
        let rows = exec(
            db,
            "SELECT id, source, source_id, channel_type, channel_id, account_id, role, content, created_at FROM messages WHERE rowid = ?1",
            &p,
        )?;
        read_first_message(&rows)
    }

    /// The most recent messages of a channel, newest first, at most `limit`.
    pub fn get_recent_messages_in_channel(&self, db: &mut Db, channel_id: &str, limit: i64) -> (r: Result<
        Vec<Message>,
        SqliteError,
    >)
        ensures
            final(db).conn == old(db).conn,
            final(db).log@ == old(db).log@.push(
                (
                    "SELECT id, source, source_id, channel_type, channel_id, account_id, role, content, created_at FROM messages WHERE channel_id = ?1 ORDER BY created_at DESC LIMIT ?2"@,
                    seq![Bound::Text(channel_id@), Bound::Integer(limit)],
                ),
            ),
            r is Err ==> r->Err_0 is DatabaseError || r->Err_0 is SerializationError,
            r matches Err(SqliteError::SerializationError(_)) ==> exists|rows: Seq<Vec<SqlValue>>|
                #[trigger] some_row_not_message(rows),
            r is Ok ==> exists|rows: Seq<Vec<SqlValue>>| #[trigger] messages_read(rows, r->Ok_0@),
    {
        let p = vec![Param::Text(String::from_str(channel_id)), Param::Integer(limit)];
        assert(bounds(p@) =~= seq![Bound::Text(channel_id@), Bound::Integer(limit)]);
        let rows = exec(
            db,
            "SELECT id, source, source_id, channel_type, channel_id, account_id, role, content, created_at FROM messages WHERE channel_id = ?1 ORDER BY created_at DESC LIMIT ?2",
            &p,
        )?;
        read_messages(&rows)
    }

    /// The most recent messages of all channels, newest first, at most
    /// `limit`.
    pub fn get_recent_messages(&self, db: &mut Db, limit: i64) -> (r: Result<Vec<Message>, SqliteError>)
        ensures
            final(db).conn == old(db).conn,
            final(db).log@ == old(db).log@.push(
                (
                    "SELECT id, source, source_id, channel_type, channel_id, account_id, role, content, created_at FROM messages ORDER BY created_at DESC LIMIT ?1"@,
                    seq![Bound::Integer(limit)],
                ),
            ),
            r is Err ==> r->Err_0 is DatabaseError || r->Err_0 is SerializationError,
            r matches Err(SqliteError::SerializationError(_)) ==> exists|rows: Seq<Vec<SqlValue>>|
                #[trigger] some_row_not_message(rows),
            r is Ok ==> exists|rows: Seq<Vec<SqlValue>>| #[trigger] messages_read(rows, r->Ok_0@),
    {
        let p = vec![Param::Integer(limit)];
        assert(bounds(p@) =~= seq![Bound::Integer(limit)]);
        let rows = exec(
            db,
            "SELECT id, source, source_id, channel_type, channel_id, account_id, role, content, created_at FROM messages ORDER BY created_at DESC LIMIT ?1",
            &p,
        )?;
        read_messages(&rows)
    }

    /// The history of a channel as (author, content) pairs, most recent
    /// first, at most `limit` of them (no bound for a negative `limit`).
    pub fn channel_messages(&self, db: &mut Db, channel_id: &str, limit: i64) -> (r: Result<
        Vec<(String, String)>,
        SqliteError,
    >)
        ensures
            final(db).conn == old(db).conn,
            r matches Ok(v) ==> limit >= 0 ==> v@.len() <= limit,
            final(db).log@ == old(db).log@.push(
                (
                    "SELECT source_id, content FROM messages WHERE channel_id = ?1 ORDER BY created_at DESC LIMIT ?2"@,
                    seq![Bound::Text(channel_id@), Bound::Integer(limit)],
                ),
            ),
            r is Err ==> r->Err_0 is DatabaseError || r->Err_0 is SerializationError,
            r matches Err(SqliteError::SerializationError(_)) ==> exists|rows: Seq<Vec<SqlValue>>|
                #[trigger] pairs_unreadable(rows, limit),
            r is Ok ==> exists|rows: Seq<Vec<SqlValue>>| #[trigger] pairs_read(rows, limit, r->Ok_0@),
    {
        let p = vec![Param::Text(String::from_str(channel_id)), Param::Integer(limit)];
        assert(bounds(p@) =~= seq![Bound::Text(channel_id@), Bound::Integer(limit)]);
        let rows = exec(
            db,
            "SELECT source_id, content FROM messages WHERE channel_id = ?1 ORDER BY created_at DESC LIMIT ?2",
            &p,
        )?;
        read_pairs(&rows, limit)
    }

    /// Stores documents with their embeddings in one transaction.
    pub fn add_documents(&self, db: &mut Db, documents: &Vec<(Document, Vec<Embedding>)>) -> (r: Result<
        i64,
        SqliteError,
    >)
        requires
            self.wf(),
        ensures
            final(db).conn == old(db).conn,
            r matches Err(SqliteError::DimensionMismatch { .. }) <==> !batch_fits(
                batch_embeddings(documents@),
                self.document_store.dims as nat,
            ),
            r matches Ok(id) ==> committed_batch(old(db).log@, final(db).log@, documents@, id),
            r matches Err(SqliteError::DimensionMismatch { .. }) ==> final(db).log@ == old(db).log@,
            r matches Err(SqliteError::DatabaseError(_)) ==> batch_aborted::<Document>(
                old(db).log@,
                final(db).log@,
                documents@,
            ),
            r is Err ==> r->Err_0 is DatabaseError || r->Err_0 is DimensionMismatch,
    {
        self.document_store.add_rows(db, documents)
    }

    /// A read index over the documents.
    pub fn document_index(&self) -> (r: SqliteVectorIndex<Document>)
        ensures
            r.store.dims == self.document_store.dims,
    {
        SqliteVectorIndex::new(SqliteVectorStore { dims: self.document_store.dims, _marker: std::marker::PhantomData })
    }

    /// A read index over the messages.
    pub fn message_index(&self) -> (r: SqliteVectorIndex<Message>)
        ensures
            r.store.dims == self.message_store.dims,
    {
        SqliteVectorIndex::new(SqliteVectorStore { dims: self.message_store.dims, _marker: std::marker::PhantomData })
    }
}

} // verus!
