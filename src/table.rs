//! The table contract that every storable record kind fulfils, and the two
//! record kinds of the knowledge base.
use vstd::prelude::*;
use crate::schema::{Column, column_names, is_identifier, names_are_identifiers};
use crate::types::{ChannelType, Source, lower_of};

verus! {

/// One value read from or bound to an SQL statement. A floating-point value
/// is kept as its 64-bit IEEE-754 pattern.
#[derive(Debug, Clone)]
pub enum SqlValue {
    Null,
    Integer(i64),
    Real(u64),
    Text(String),
    Blob(Vec<u8>),
}

/// The text held by a value, if it is text.
pub open spec fn text_of(v: SqlValue) -> Option<Seq<char>> {
    match v {
        SqlValue::Text(t) => Some(t@),
        _ => None,
    }
}

/// The text at position `i` of a row, if there is one.
pub fn text_at(row: &Vec<SqlValue>, i: usize) -> (r: Option<String>)
    ensures
        r is Some <==> (i < row@.len() && text_of(row@[i as int]) is Some),
        r matches Some(t) ==> text_of(row@[i as int]) == Some(t@),
{
    if i >= row.len() {
        return None;
    }
    match &row[i] {
        SqlValue::Text(t) => Some(t.clone()),
        _ => None,
    }
}

/// The view of a column: name, type, indexed.
pub open spec fn column_view(c: Column) -> (Seq<char>, Seq<char>, bool) {
    (c.name@, c.col_type@, c.indexed)
}

pub open spec fn schema_view(cols: Seq<Column>) -> Seq<(Seq<char>, Seq<char>, bool)> {
    cols.map_values(|c: Column| column_view(c))
}

/// The views of named column values.
pub open spec fn pair_views(v: Seq<(String, String)>) -> Seq<(Seq<char>, Seq<char>)> {
    v.map_values(|p: (String, String)| (p.0@, p.1@))
}

/// A record's values agree with a schema: one value per declared column, in
/// the declared order, the first being the record's `id`.
pub open spec fn values_fit_schema(
    values: Seq<(Seq<char>, Seq<char>)>,
    schema: Seq<(Seq<char>, Seq<char>, bool)>,
    id: Seq<char>,
) -> bool {
    &&& values.len() == schema.len()
    &&& values.len() > 0
    &&& values[0] == ("id"@, id)
    &&& forall|i: int| 0 <= i < values.len() ==> #[trigger] values[i].0 == schema[i].0
}

/// A kind of record that can be kept in a vector store: a table name, a
/// column schema, a unique id per record and the record's column values.
pub trait SqliteVectorStoreTable: Sized {
    spec fn table_name() -> Seq<char>;

    spec fn table_schema() -> Seq<(Seq<char>, Seq<char>, bool)>;

    spec fn record_id(&self) -> Seq<char>;

    spec fn record_values(&self) -> Seq<(Seq<char>, Seq<char>)>;

    /// A row of the table's columns, in schema order, that reads back as `r`.
    spec fn row_matches(row: Seq<SqlValue>, r: Self) -> bool;

    /// A row that reads back as some record.
    spec fn row_readable(row: Seq<SqlValue>) -> bool;

    /// Name of the table that holds this record kind.
    fn name() -> (r: String)
        ensures
            r@ == Self::table_name(),
            is_identifier(r@),
    ;

    /// The columns of the table, `id` first.
    fn schema() -> (r: Vec<Column>)
        ensures
            schema_view(r@) == Self::table_schema(),
            names_are_identifiers(r@),
    ;

    fn id(&self) -> (r: String)
        ensures
            r@ == self.record_id(),
    ;

    /// The record's value for each column, in schema order.
    fn column_values(&self) -> (r: Vec<(String, String)>)
        ensures
            pair_views(r@) == self.record_values(),
            values_fit_schema(self.record_values(), Self::table_schema(), self.record_id()),
    ;

    /// Reads a record back from a row of its columns in schema order.
    fn from_row(row: &Vec<SqlValue>) -> (r: Option<Self>)
        ensures
            r is Some <==> Self::row_readable(row@),
            r matches Some(x) ==> Self::row_matches(row@, x),
    ;
}

/// A piece of reference material.
#[derive(Debug, Clone)]
pub struct Document {
    pub id: String,
    pub source_id: String,
    pub content: String,
    /// RFC 3339 time of creation.
    pub created_at: String,
}

/// One message of a conversation.
#[derive(Debug, Clone)]
pub struct Message {
    pub id: String,
    pub source: Source,
    pub source_id: String,
    pub channel_type: ChannelType,
    pub channel_id: String,
    pub account_id: String,
    pub role: String,
    pub content: String,
    /// RFC 3339 time of creation.
    pub created_at: String,
}

fn pair(a: &str, b: &String) -> (r: (String, String))
    ensures
        r.0@ == a@,
        r.1@ == b@,
{
    (String::from_str(a), b.clone())
}

impl SqliteVectorStoreTable for Document {
    open spec fn table_name() -> Seq<char> {
        "documents"@
    }

    open spec fn table_schema() -> Seq<(Seq<char>, Seq<char>, bool)> {
        seq![
            ("id"@, "TEXT PRIMARY KEY"@, false),
            ("source_id"@, "TEXT"@, true),
            ("content"@, "TEXT"@, false),
            ("created_at"@, "TIMESTAMP DEFAULT CURRENT_TIMESTAMP"@, false),
        ]
    }

    open spec fn record_id(&self) -> Seq<char> {
        self.id@
    }

    open spec fn record_values(&self) -> Seq<(Seq<char>, Seq<char>)> {
        seq![
            ("id"@, self.id@),
            ("source_id"@, self.source_id@),
            ("content"@, self.content@),
            ("created_at"@, self.created_at@),
        ]
    }

    open spec fn row_readable(row: Seq<SqlValue>) -> bool {
        &&& row.len() >= 4
        &&& forall|i: int| 0 <= i < 4 ==> #[trigger] text_of(row[i]) is Some
    }

    open spec fn row_matches(row: Seq<SqlValue>, r: Document) -> bool {
        &&& text_of(row[0]) == Some(r.id@)
        &&& text_of(row[1]) == Some(r.source_id@)
        &&& text_of(row[2]) == Some(r.content@)
        &&& text_of(row[3]) == Some(r.created_at@)
    }

    fn name() -> (r: String) {
        let r = String::from_str("documents");
        proof {
            reveal_strlit("documents");
        }
        r
    }

    fn schema() -> (r: Vec<Column>) {
        let mut r: Vec<Column> = Vec::new();
        r.push(Column::new("id", "TEXT PRIMARY KEY"));
        r.push(Column::new("source_id", "TEXT").indexed());
        r.push(Column::new("content", "TEXT"));
        r.push(Column::new("created_at", "TIMESTAMP DEFAULT CURRENT_TIMESTAMP"));
        proof {
            reveal_strlit("id");
            reveal_strlit("source_id");
            reveal_strlit("content");
            reveal_strlit("created_at");
            assert(schema_view(r@) =~= Self::table_schema());
        }
        r
    }

    fn id(&self) -> (r: String) {
        self.id.clone()
    }

    fn column_values(&self) -> (r: Vec<(String, String)>) {
        let mut r: Vec<(String, String)> = Vec::new();
        r.push(pair("id", &self.id));
        r.push(pair("source_id", &self.source_id));
        r.push(pair("content", &self.content));
        r.push(pair("created_at", &self.created_at));
        assert(pair_views(r@) =~= self.record_values());
        r
    }

    fn from_row(row: &Vec<SqlValue>) -> (r: Option<Document>) {
        let id = text_at(row, 0);
        let source_id = text_at(row, 1);
        let content = text_at(row, 2);
        let created_at = text_at(row, 3);
        match (id, source_id, content, created_at) {
            (Some(id), Some(source_id), Some(content), Some(created_at)) => {
                Some(Document { id, source_id, content, created_at })
            },
            _ => {
                proof {
                    if Self::row_readable(row@) {
                        assert(text_of(row@[0]) is Some);
                        assert(text_of(row@[1]) is Some);
                        assert(text_of(row@[2]) is Some);
                        assert(text_of(row@[3]) is Some);
                    }
                }
                None
            },
        }
    }
}

/// A document stored as the texts of its column values reads back as the
/// same document.
pub proof fn document_row_round_trip(d: Document, row: Seq<SqlValue>)
    requires
        row.len() == d.record_values().len(),
        forall|i: int| 0 <= i < row.len() ==> #[trigger] text_of(row[i]) == Some(d.record_values()[i].1),
    ensures
        Document::row_readable(row),
        Document::row_matches(row, d),
{
    assert(text_of(row[0]) == Some(d.id@));
    assert(text_of(row[1]) == Some(d.source_id@));
    assert(text_of(row[2]) == Some(d.content@));
    assert(text_of(row[3]) == Some(d.created_at@));
}

/// The table and column names of documents and messages may all be written
/// into SQL unquoted.
pub proof fn record_names_are_identifiers()
    ensures
        is_identifier(Document::table_name()),
        forall|i: int| 0 <= i < Document::table_schema().len() ==> is_identifier(
            #[trigger] Document::table_schema()[i].0,
        ),
        is_identifier(Message::table_name()),
        forall|i: int| 0 <= i < Message::table_schema().len() ==> is_identifier(
            #[trigger] Message::table_schema()[i].0,
        ),
{
    reveal_strlit("documents");
    reveal_strlit("messages");
    reveal_strlit("id");
    reveal_strlit("source");
    reveal_strlit("source_id");
    reveal_strlit("channel_type");
    reveal_strlit("channel_id");
    reveal_strlit("account_id");
    reveal_strlit("role");
    reveal_strlit("content");
    reveal_strlit("created_at");
}

/// The source named by a stored text, in any letter case.
pub open spec fn source_in(t: Option<Seq<char>>) -> Option<Source> {
    match t {
        Some(s) => if Source::parse(s) is Some {
            Source::parse(s)
        } else {
            Source::parse(lower_of(s))
        },
        None => None,
    }
}

/// The channel type named by a stored text, in any letter case.
pub open spec fn channel_type_in(t: Option<Seq<char>>) -> Option<ChannelType> {
    match t {
        Some(s) => if ChannelType::parse(s) is Some {
            ChannelType::parse(s)
        } else {
            ChannelType::parse(lower_of(s))
        },
        None => None,
    }
}

/// Reads a stored source name; names as written are matched without
/// lower-casing.
fn read_source(s: &str) -> (r: Option<Source>)
    ensures
        r == source_in(Some(s@)),
{
    match Source::from_lowercase(s) {
        Some(x) => Some(x),
        None => Source::from_str(s),
    }
}

/// Reads a stored channel type name; names as written are matched without
/// lower-casing.
fn read_channel_type(s: &str) -> (r: Option<ChannelType>)
    ensures
        r == channel_type_in(Some(s@)),
{
    match ChannelType::from_lowercase(s) {
        Some(x) => Some(x),
        None => ChannelType::from_str(s),
    }
}

/// A message stored as the texts of its column values reads back as the
/// same message.
pub proof fn message_row_round_trip(m: Message, row: Seq<SqlValue>)
    requires
        row.len() == m.record_values().len(),
        forall|i: int| 0 <= i < row.len() ==> #[trigger] text_of(row[i]) == Some(m.record_values()[i].1),
    ensures
        Message::row_readable(row),
        Message::row_matches(row, m),
{
    crate::types::source_name_round_trip(m.source);
    crate::types::channel_type_name_round_trip(m.channel_type);
    assert(text_of(row[0]) == Some(m.id@));
    assert(text_of(row[1]) == Some(m.source.name_of()));
    assert(text_of(row[2]) == Some(m.source_id@));
    assert(text_of(row[3]) == Some(m.channel_type.name_of()));
    assert(text_of(row[4]) == Some(m.channel_id@));
    assert(text_of(row[5]) == Some(m.account_id@));
    assert(text_of(row[6]) == Some(m.role@));
    assert(text_of(row[7]) == Some(m.content@));
    assert(text_of(row[8]) == Some(m.created_at@));
}

impl SqliteVectorStoreTable for Message {
    open spec fn table_name() -> Seq<char> {
        "messages"@
    }

    open spec fn table_schema() -> Seq<(Seq<char>, Seq<char>, bool)> {
        seq![
            ("id"@, "TEXT PRIMARY KEY"@, false),
            ("source"@, "TEXT"@, false),
            ("source_id"@, "TEXT"@, true),
            ("channel_type"@, "TEXT"@, false),
            ("channel_id"@, "TEXT"@, true),
            ("account_id"@, "TEXT"@, true),
            ("role"@, "TEXT"@, false),
            ("content"@, "TEXT"@, false),
            ("created_at"@, "TIMESTAMP DEFAULT CURRENT_TIMESTAMP"@, false),
        ]
    }

    open spec fn record_id(&self) -> Seq<char> {
        self.id@
    }

    open spec fn record_values(&self) -> Seq<(Seq<char>, Seq<char>)> {
        seq![
            ("id"@, self.id@),
            ("source"@, self.source.name_of()),
            ("source_id"@, self.source_id@),
            ("channel_type"@, self.channel_type.name_of()),
            ("channel_id"@, self.channel_id@),
            ("account_id"@, self.account_id@),
            ("role"@, self.role@),
            ("content"@, self.content@),
            ("created_at"@, self.created_at@),
        ]
    }

    open spec fn row_readable(row: Seq<SqlValue>) -> bool {
        &&& row.len() >= 9
        &&& forall|i: int| 0 <= i < 9 ==> #[trigger] text_of(row[i]) is Some
        &&& source_in(text_of(row[1])) is Some
        &&& channel_type_in(text_of(row[3])) is Some
    }

    open spec fn row_matches(row: Seq<SqlValue>, r: Message) -> bool {
        &&& text_of(row[0]) == Some(r.id@)
        &&& source_in(text_of(row[1])) == Some(r.source)
        &&& text_of(row[2]) == Some(r.source_id@)
        &&& channel_type_in(text_of(row[3])) == Some(r.channel_type)
        &&& text_of(row[4]) == Some(r.channel_id@)
        &&& text_of(row[5]) == Some(r.account_id@)
        &&& text_of(row[6]) == Some(r.role@)
        &&& text_of(row[7]) == Some(r.content@)
        &&& text_of(row[8]) == Some(r.created_at@)
    }

    fn name() -> (r: String) {
        let r = String::from_str("messages");
        proof {
            reveal_strlit("messages");
        }
        r
    }

    fn schema() -> (r: Vec<Column>) {
        let mut r: Vec<Column> = Vec::new();
        r.push(Column::new("id", "TEXT PRIMARY KEY"));
        r.push(Column::new("source", "TEXT"));
        r.push(Column::new("source_id", "TEXT").indexed());
        r.push(Column::new("channel_type", "TEXT"));
        r.push(Column::new("channel_id", "TEXT").indexed());
        r.push(Column::new("account_id", "TEXT").indexed());
        r.push(Column::new("role", "TEXT"));
        r.push(Column::new("content", "TEXT"));
        r.push(Column::new("created_at", "TIMESTAMP DEFAULT CURRENT_TIMESTAMP"));
        proof {
            reveal_strlit("id");
            reveal_strlit("source");
            reveal_strlit("source_id");
            reveal_strlit("channel_type");
            reveal_strlit("channel_id");
            reveal_strlit("account_id");
            reveal_strlit("role");
            reveal_strlit("content");
            reveal_strlit("created_at");
            assert(schema_view(r@) =~= Self::table_schema());
        }
        r
    }

    fn id(&self) -> (r: String) {
        self.id.clone()
    }

    fn column_values(&self) -> (r: Vec<(String, String)>) {
        let mut r: Vec<(String, String)> = Vec::new();
        r.push(pair("id", &self.id));
        r.push((String::from_str("source"), String::from_str(self.source.as_str())));
        r.push(pair("source_id", &self.source_id));
        r.push((String::from_str("channel_type"), String::from_str(self.channel_type.as_str())));
        r.push(pair("channel_id", &self.channel_id));
        r.push(pair("account_id", &self.account_id));
        r.push(pair("role", &self.role));
        r.push(pair("content", &self.content));
        r.push(pair("created_at", &self.created_at));
        assert(pair_views(r@) =~= self.record_values());
        r
    }

    fn from_row(row: &Vec<SqlValue>) -> (r: Option<Message>) {
        let id = text_at(row, 0);
        let source = text_at(row, 1);
        let source_id = text_at(row, 2);
        let channel_type = text_at(row, 3);
        let channel_id = text_at(row, 4);
        let account_id = text_at(row, 5);
        let role = text_at(row, 6);
        let content = text_at(row, 7);
        let created_at = text_at(row, 8);
        proof {
            if Self::row_readable(row@) {
                assert(text_of(row@[0]) is Some);
                assert(text_of(row@[1]) is Some);
                assert(text_of(row@[2]) is Some);
                assert(text_of(row@[3]) is Some);
                assert(text_of(row@[4]) is Some);
                assert(text_of(row@[5]) is Some);
                assert(text_of(row@[6]) is Some);
                assert(text_of(row@[7]) is Some);
                assert(text_of(row@[8]) is Some);
            }
        }
        match (id, source, source_id, channel_type, channel_id, account_id, role, content, created_at) {
            (
                Some(id),
                Some(source),
                Some(source_id),
                Some(channel_type),
                Some(channel_id),
                Some(account_id),
                Some(role),
                Some(content),
                Some(created_at),
            ) => {
                let source = read_source(source.as_str());
                let channel_type = read_channel_type(channel_type.as_str());
                match (source, channel_type) {
                    (Some(source), Some(channel_type)) => Some(
                        Message {
                            id,
                            source,
                            source_id,
                            channel_type,
                            channel_id,
                            account_id,
                            role,
                            content,
                            created_at,
                        },
                    ),
                    _ => None,
                }
            },
            _ => None,
        }
    }
}

} // verus!
