//! Column descriptions and the SQL statements generated from them.
use vstd::prelude::*;
use crate::text::{cat, decimal, join, join_strings, to_decimal, views};

verus! {

/// One column of a record table: its name, its SQL type and whether it gets
/// a secondary index.
pub struct Column {
    pub name: String,
    pub col_type: String,
    pub indexed: bool,
}

impl Column {
    pub fn new(name: &str, col_type: &str) -> (r: Column)
        ensures
            r.name@ == name@,
            r.col_type@ == col_type@,
            !r.indexed,
    {
        Column { name: String::from_str(name), col_type: String::from_str(col_type), indexed: false }
    }

    /// The same column, marked for a secondary index.
    pub fn indexed(self) -> (r: Column)
        ensures
            r.name@ == self.name@,
            r.col_type@ == self.col_type@,
            r.indexed,
    {
        Column { name: self.name, col_type: self.col_type, indexed: true }
    }
}

/// A character allowed in a table or column name.
pub open spec fn is_ident_char(c: char) -> bool {
    ('a' <= c && c <= 'z') || ('0' <= c && c <= '9') || c == '_'
}

/// A name made only of lower-case ASCII letters, digits and underscores.
pub open spec fn is_identifier(s: Seq<char>) -> bool {
    s.len() > 0 && forall|i: int| 0 <= i < s.len() ==> is_ident_char(#[trigger] s[i])
}

/// Tells whether `s` is a name that may be written into SQL unquoted.
pub fn check_identifier(s: &str) -> (r: bool)
    ensures
        r == is_identifier(s@),
{
    let n = s.unicode_len();
    if n == 0 {
        return false;
    }
    let mut i: usize = 0;
    while i < n
        invariant
            n == s@.len(),
            i <= n,
            forall|j: int| 0 <= j < i ==> is_ident_char(#[trigger] s@[j]),
        decreases n - i,
    {
        let c = s.get_char(i);
        if !(('a' <= c && c <= 'z') || ('0' <= c && c <= '9') || c == '_') {
            return false;
        }
        i = i + 1;
    }
    true
}

/// The names of the columns, in order.
pub open spec fn column_names(cols: Seq<Column>) -> Seq<Seq<char>> {
    cols.map_values(|c: Column| c.name@)
}

/// Every column name is a plain identifier.
pub open spec fn names_are_identifiers(cols: Seq<Column>) -> bool {
    forall|i: int| 0 <= i < cols.len() ==> is_identifier(#[trigger] cols[i].name@)
}

/// Tells whether every column name is a plain identifier.
pub fn check_column_names(cols: &Vec<Column>) -> (r: bool)
    ensures
        r == names_are_identifiers(cols@),
{
    let mut i: usize = 0;
    while i < cols.len()
        invariant
            i <= cols@.len(),
            forall|j: int| 0 <= j < i ==> is_identifier(#[trigger] cols@[j].name@),
        decreases cols@.len() - i,
    {
        if !check_identifier(cols[i].name.as_str()) {
            return false;
        }
        i = i + 1;
    }
    true
}

/// One column definition inside `CREATE TABLE`.
pub open spec fn column_def(c: Column) -> Seq<char> {
    "\n    "@ + c.name@ + " "@ + c.col_type@
}

/// `CREATE TABLE IF NOT EXISTS <t> (<defs>)`, one definition per line.
pub open spec fn create_table_text(table: Seq<char>, cols: Seq<Column>) -> Seq<char> {
    "CREATE TABLE IF NOT EXISTS "@ + table + " ("@ + join(cols.map_values(|c: Column| column_def(c)), ","@)
        + "\n)"@
}

/// `CREATE INDEX IF NOT EXISTS idx_<t>_<c> ON <t>(<c>)`.
pub open spec fn create_index_text(table: Seq<char>, col: Seq<char>) -> Seq<char> {
    "CREATE INDEX IF NOT EXISTS idx_"@ + table + "_"@ + col + " ON "@ + table + "("@ + col + ")"@
}

/// The names of the indexed columns, in order.
pub open spec fn indexed_names(cols: Seq<Column>) -> Seq<Seq<char>>
    decreases cols.len(),
{
    if cols.len() == 0 {
        Seq::empty()
    } else if cols.last().indexed {
        indexed_names(cols.drop_last()).push(cols.last().name@)
    } else {
        indexed_names(cols.drop_last())
    }
}

/// The index statements of a table: one on `id`, then one per indexed
/// column.
pub open spec fn create_indexes_text(table: Seq<char>, cols: Seq<Column>) -> Seq<Seq<char>> {
    seq!["id"@].add(indexed_names(cols)).map_values(|c: Seq<char>| create_index_text(table, c))
}

/// The embedding table of `table`, one vector column of width `dims`.
pub open spec fn create_embeddings_text(table: Seq<char>, dims: nat) -> Seq<char> {
    "CREATE VIRTUAL TABLE IF NOT EXISTS "@ + table + "_embeddings USING vec0(embedding float["@
        + decimal(dims) + "])"@
}

/// The placeholders `?1, ..., ?n`.
pub open spec fn placeholders(n: nat) -> Seq<Seq<char>> {
    Seq::new(n, |i: int| "?"@ + decimal((i + 1) as nat))
}

/// Inserts a row, replacing any row with the same `id`.
pub open spec fn upsert_text(table: Seq<char>, names: Seq<Seq<char>>) -> Seq<char> {
    "INSERT OR REPLACE INTO "@ + table + " ("@ + join(names, ", "@) + ") VALUES ("@ + join(
        placeholders(names.len()),
        ", "@,
    ) + ")"@
}

/// Removes the embedding rows of the row whose `id` is the first parameter.
pub open spec fn delete_embeddings_text(table: Seq<char>) -> Seq<char> {
    "DELETE FROM "@ + table + "_embeddings WHERE rowid IN (SELECT rowid FROM "@ + table
        + " WHERE id = ?1)"@
}

/// Inserts one embedding row keyed by a row id.
pub open spec fn insert_embedding_text(table: Seq<char>) -> Seq<char> {
    "INSERT INTO "@ + table + "_embeddings (rowid, embedding) VALUES (?1, ?2)"@
}

/// The nearest-neighbour query: the given columns of the `k` rows nearest to
/// the query vector, then the distance, nearest first.
pub open spec fn knn_text(table: Seq<char>, names: Seq<Seq<char>>) -> Seq<char> {
    "SELECT d."@ + join(names, ", d."@) + ", e.distance FROM "@ + table + "_embeddings e JOIN "@
        + table + " d ON e.rowid = d.rowid WHERE e.embedding MATCH ?1 AND k = ?2 ORDER BY e.distance"@
}

/// The given columns of the row whose `id` is the first parameter.
pub open spec fn select_by_id_text(table: Seq<char>, names: Seq<Seq<char>>) -> Seq<char> {
    "SELECT "@ + join(names, ", "@) + " FROM "@ + table + " WHERE id = ?1"@
}

/// The embeddings of the row whose `id` is the first parameter.
pub open spec fn embeddings_by_id_text(table: Seq<char>) -> Seq<char> {
    "SELECT e.embedding FROM "@ + table + "_embeddings e JOIN "@ + table
        + " d ON e.rowid = d.rowid WHERE d.id = ?1"@
}

pub fn select_by_id_sql(table: &str, names: &Vec<String>) -> (r: String)
    ensures
        r@ == select_by_id_text(table@, views(names@)),
{
    let mut r = String::from_str("SELECT ");
    r.append(join_strings(names, ", ").as_str());
    r.append(" FROM ");
    r.append(table);
    r.append(" WHERE id = ?1");
    r
}

pub fn embeddings_by_id_sql(table: &str) -> (r: String)
    ensures
        r@ == embeddings_by_id_text(table@),
{
    let mut r = String::from_str("SELECT e.embedding FROM ");
    r.append(table);
    r.append("_embeddings e JOIN ");
    r.append(table);
    r.append(" d ON e.rowid = d.rowid WHERE d.id = ?1");
    r
}

fn column_def_string(c: &Column) -> (r: String)
    ensures
        r@ == column_def(*c),
{
    let mut r = String::from_str("\n    ");
    r.append(c.name.as_str());
    r.append(" ");
    r.append(c.col_type.as_str());
    r
}

pub fn create_table_sql(table: &str, cols: &Vec<Column>) -> (r: String)
    ensures
        r@ == create_table_text(table@, cols@),
{
    let mut defs: Vec<String> = Vec::new();
    let mut i: usize = 0;
    while i < cols.len()
        invariant
            i <= cols@.len(),
            defs@.len() == i,
            forall|j: int| 0 <= j < i ==> #[trigger] defs@[j]@ == column_def(cols@[j]),
        decreases cols@.len() - i,
    {
        defs.push(column_def_string(&cols[i]));
        i = i + 1;
    }
    assert(views(defs@) =~= cols@.map_values(|c: Column| column_def(c)));
    let mut r = String::from_str("CREATE TABLE IF NOT EXISTS ");
    r.append(table);
    r.append(" (");
    r.append(join_strings(&defs, ",").as_str());
    r.append("\n)");
    r
}

pub fn create_index_sql(table: &str, col: &str) -> (r: String)
    ensures
        r@ == create_index_text(table@, col@),
{
    let mut r = String::from_str("CREATE INDEX IF NOT EXISTS idx_");
    r.append(table);
    r.append("_");
    r.append(col);
    r.append(" ON ");
    r.append(table);
    r.append("(");
    r.append(col);
    r.append(")");
    r
}

pub fn create_indexes_sql(table: &str, cols: &Vec<Column>) -> (r: Vec<String>)
    ensures
        views(r@) == create_indexes_text(table@, cols@),
{
    let mut r: Vec<String> = Vec::new();
    r.push(create_index_sql(table, "id"));
    let mut i: usize = 0;
    while i < cols.len()
        invariant
            i <= cols@.len(),
            r@.len() == 1 + indexed_names(cols@.subrange(0, i as int)).len(),
            forall|j: int|
                0 <= j < r@.len() ==> #[trigger] r@[j]@ == create_index_text(
                    table@,
                    seq!["id"@].add(indexed_names(cols@.subrange(0, i as int)))[j],
                ),
        decreases cols@.len() - i,
    {
        let ghost pre = cols@.subrange(0, i as int);
        let ghost post = cols@.subrange(0, i + 1);
        proof {
            assert(post.drop_last() =~= pre);
            assert(post.last() == cols@[i as int]);
        }
        if cols[i].indexed {
            r.push(create_index_sql(table, cols[i].name.as_str()));
            proof {
                assert(indexed_names(post) == indexed_names(pre).push(cols@[i as int].name@));
                assert(seq!["id"@].add(indexed_names(post)) =~= seq!["id"@].add(
                    indexed_names(pre),
                ).push(cols@[i as int].name@));
            }
        } else {
            assert(indexed_names(post) == indexed_names(pre));
        }
        i = i + 1;
    }
    assert(cols@.subrange(0, cols@.len() as int) =~= cols@);
    assert(views(r@) =~= create_indexes_text(table@, cols@));
    r
}

pub fn create_embeddings_sql(table: &str, dims: u64) -> (r: String)
    ensures
        r@ == create_embeddings_text(table@, dims as nat),
{
    let mut r = String::from_str("CREATE VIRTUAL TABLE IF NOT EXISTS ");
    r.append(table);
    r.append("_embeddings USING vec0(embedding float[");
    r.append(to_decimal(dims).as_str());
    r.append("])");
    r
}

fn placeholder_list(n: usize) -> (r: Vec<String>)
    ensures
        views(r@) == placeholders(n as nat),
{
    let mut r: Vec<String> = Vec::new();
    let mut i: usize = 0;
    while i < n
        invariant
            i <= n,
            r@.len() == i,
            forall|j: int| 0 <= j < i ==> #[trigger] r@[j]@ == "?"@ + decimal((j + 1) as nat),
        decreases n - i,
    {
        r.push(cat("?", to_decimal((i + 1) as u64).as_str()));
        i = i + 1;
    }
    assert(views(r@) =~= placeholders(n as nat));
    r
}

pub fn upsert_sql(table: &str, names: &Vec<String>) -> (r: String)
    ensures
        r@ == upsert_text(table@, views(names@)),
{
    let holders = placeholder_list(names.len());
    let mut r = String::from_str("INSERT OR REPLACE INTO ");
    r.append(table);
    r.append(" (");
    r.append(join_strings(names, ", ").as_str());
    r.append(") VALUES (");
    r.append(join_strings(&holders, ", ").as_str());
    r.append(")");
    r
}

pub fn delete_embeddings_sql(table: &str) -> (r: String)
    ensures
        r@ == delete_embeddings_text(table@),
{
    let mut r = String::from_str("DELETE FROM ");
    r.append(table);
    r.append("_embeddings WHERE rowid IN (SELECT rowid FROM ");
    r.append(table);
    r.append(" WHERE id = ?1)");
    r
}

pub fn insert_embedding_sql(table: &str) -> (r: String)
    ensures
        r@ == insert_embedding_text(table@),
{
    let mut r = String::from_str("INSERT INTO ");
    r.append(table);
    r.append("_embeddings (rowid, embedding) VALUES (?1, ?2)");
    r
}

pub fn knn_sql(table: &str, names: &Vec<String>) -> (r: String)
    ensures
        r@ == knn_text(table@, views(names@)),
{
    let mut r = String::from_str("SELECT d.");
    r.append(join_strings(names, ", d.").as_str());
    r.append(", e.distance FROM ");
    r.append(table);
    r.append("_embeddings e JOIN ");
    r.append(table);
    r.append(" d ON e.rowid = d.rowid WHERE e.embedding MATCH ?1 AND k = ?2 ORDER BY e.distance");
    r
}

} // verus!
