//! The vector store: a record table and its parallel embedding table, the
//! transactional write path and the nearest-neighbour read path.
use vstd::prelude::*;
use std::marker::PhantomData;
use crate::db::{
    Bound, Db, Param, Sent, bound_of, bounds, collect_rows, error_text, last_insert_rowid,
    prepare_bound,
};
use crate::embedding::{Embedding, deserialize_embedding, le_bytes, le_words, serialize_embedding};
use crate::schema::{
    check_column_names, check_identifier, column_names, create_embeddings_sql,
    create_embeddings_text, create_indexes_sql, create_indexes_text, create_table_sql,
    embeddings_by_id_sql, embeddings_by_id_text, select_by_id_sql, select_by_id_text,
    create_table_text, delete_embeddings_sql, delete_embeddings_text, insert_embedding_sql,
    insert_embedding_text, is_identifier, knn_sql, knn_text, names_are_identifiers, upsert_sql,
    upsert_text,
};
use crate::table::{SqlValue, SqliteVectorStoreTable, pair_views, schema_view, text_of};
use crate::text::{to_decimal, views};

verus! {

/// What went wrong in a store operation.
#[derive(Debug)]
pub enum SqliteError {
    /// The database refused a statement; the driver's message.
    DatabaseError(String),
    /// A value could not be encoded or decoded.
    SerializationError(String),
    /// A table or column name is not a plain identifier.
    InvalidIdentifier(String),
    /// An embedding's width differs from the store's.
    DimensionMismatch { expected: usize, found: usize },
}

/// Runs one statement, turning a driver failure into a database error.
pub fn exec(db: &mut Db, sql: &str, params: &Vec<Param>) -> (r: Result<
    Vec<Vec<SqlValue>>,
    SqliteError,
>)
    ensures
        final(db).conn == old(db).conn,
        final(db).log@ == old(db).log@.push((sql@, bounds(params@))),
        r is Err ==> r->Err_0 is DatabaseError,
{
    match prepare_bound(db, sql, params) {
        Ok(stmt) => match collect_rows(stmt) {
            Ok(rows) => Ok(rows),
            Err(e) => Err(SqliteError::DatabaseError(error_text(&e))),
        },
        Err(e) => Err(SqliteError::DatabaseError(error_text(&e))),
    }
}

/// Runs one statement that takes no parameters.
pub fn exec_plain(db: &mut Db, sql: &str) -> (r: Result<(), SqliteError>)
    ensures
        final(db).conn == old(db).conn,
        final(db).log@ == old(db).log@.push((sql@, Seq::<Bound>::empty())),
        r is Err ==> r->Err_0 is DatabaseError,
{
    let none: Vec<Param> = Vec::new();
    assert(bounds(none@) =~= Seq::<Bound>::empty());
    match exec(db, sql, &none) {
        Ok(_) => Ok(()),
        Err(e) => Err(e),
    }
}

/// The statement that starts a transaction.
pub open spec fn begin_sent() -> Sent {
    ("BEGIN"@, Seq::empty())
}

/// The statement that commits a transaction.
pub open spec fn commit_sent() -> Sent {
    ("COMMIT"@, Seq::empty())
}

/// The statement that abandons a transaction.
pub open spec fn rollback_sent() -> Sent {
    ("ROLLBACK"@, Seq::empty())
}

/// Statements sent without parameters.
pub open spec fn plain_all(s: Seq<Seq<char>>) -> Seq<Sent> {
    s.map_values(|x: Seq<char>| (x, Seq::<Bound>::empty()))
}

/// The statements that create a store's table, its indexes and its
/// embedding table.
pub open spec fn object_statements(
    table: Seq<char>,
    schema: Seq<crate::schema::Column>,
    dims: nat,
) -> Seq<Sent> {
    seq![(create_table_text(table, schema), Seq::<Bound>::empty())] + plain_all(
        create_indexes_text(table, schema),
    ) + seq![(create_embeddings_text(table, dims), Seq::<Bound>::empty())]
}

/// The statements that create a store's tables inside one transaction.
pub open spec fn create_store_statements(
    table: Seq<char>,
    schema: Seq<crate::schema::Column>,
    dims: nat,
) -> Seq<Sent> {
    seq![begin_sent()] + object_statements(table, schema, dims) + seq![commit_sent()]
}

/// `after` is `before` followed by the first `k` of `stmts`, for some
/// `k >= 1`: the last of them is the one that failed.
pub open spec fn sent_prefix(before: Seq<Sent>, after: Seq<Sent>, stmts: Seq<Sent>) -> bool {
    exists|k: int| 1 <= k <= stmts.len() && after == before + #[trigger] stmts.subrange(0, k)
}

/// `after` is `before` followed by an abandoned run of the transaction
/// `stmts` (which starts with BEGIN): either BEGIN alone, which failed, or
/// the statements up to the one that failed, then ROLLBACK.
pub open spec fn aborted_within(before: Seq<Sent>, after: Seq<Sent>, stmts: Seq<Sent>) -> bool {
    ||| after == before + stmts.subrange(0, 1)
    ||| exists|k: int|
        1 < k <= stmts.len() && after == before + #[trigger] stmts.subrange(0, k) + seq![rollback_sent()]
}

/// `after` is `before` followed by an abandoned attempt to create the
/// tables of record kind `T`.
pub open spec fn store_aborted<T: SqliteVectorStoreTable>(before: Seq<Sent>, after: Seq<Sent>, dims: nat) -> bool {
    exists|schema: Seq<crate::schema::Column>|
        schema_view(schema) == T::table_schema() && #[trigger] aborted_within(
            before,
            after,
            create_store_statements(T::table_name(), schema, dims),
        )
}

/// `after` is `before` followed by the statements that create the tables of
/// record kind `T` with embeddings of width `dims`.
pub open spec fn store_created<T: SqliteVectorStoreTable>(before: Seq<Sent>, after: Seq<Sent>, dims: nat) -> bool {
    exists|schema: Seq<crate::schema::Column>|
        schema_view(schema) == T::table_schema() && after == before + #[trigger] create_store_statements(
            T::table_name(),
            schema,
            dims,
        )
}

/// The texts of a record's column values, as parameters.
pub open spec fn value_params(values: Seq<(Seq<char>, Seq<char>)>) -> Seq<Bound> {
    values.map_values(|p: (Seq<char>, Seq<char>)| Bound::Text(p.1))
}

/// The column names of a record's values.
pub open spec fn value_names(values: Seq<(Seq<char>, Seq<char>)>) -> Seq<Seq<char>> {
    values.map_values(|p: (Seq<char>, Seq<char>)| p.0)
}

/// The vectors of a list of embeddings.
pub open spec fn vectors(e: Seq<Embedding>) -> Seq<Seq<u32>> {
    e.map_values(|x: Embedding| x.vec@)
}

/// The statements that write one record with row id `rowid`: drop the
/// embeddings of any earlier row with the same id, insert or replace the
/// row, then insert one embedding row per vector, keyed by `rowid`.
pub open spec fn record_statements(
    table: Seq<char>,
    id: Seq<char>,
    values: Seq<(Seq<char>, Seq<char>)>,
    vecs: Seq<Seq<u32>>,
    rowid: i64,
) -> Seq<Sent> {
    seq![
        (delete_embeddings_text(table), seq![Bound::Text(id)]),
        (upsert_text(table, value_names(values)), value_params(values)),
    ] + embedding_statements(table, vecs, rowid)
}

/// The statement that stores one vector for row `rowid`.
pub open spec fn embedding_sent(table: Seq<char>, v: Seq<u32>, rowid: i64) -> Sent {
    (insert_embedding_text(table), seq![Bound::Integer(rowid), Bound::Blob(le_bytes(v))])
}

/// One embedding statement per vector, in order.
pub open spec fn embedding_statements(table: Seq<char>, vecs: Seq<Seq<u32>>, rowid: i64) -> Seq<
    Sent,
> {
    Seq::new(vecs.len(), |j: int| embedding_sent(table, vecs[j], rowid))
}

/// The statements that write a batch of records, the `k`-th record with row
/// id `rowids[k]`.
pub open spec fn batch_statements<T: SqliteVectorStoreTable>(
    docs: Seq<(T, Vec<Embedding>)>,
    rowids: Seq<i64>,
) -> Seq<Sent>
    decreases docs.len(),
{
    if docs.len() == 0 || rowids.len() == 0 {
        Seq::empty()
    } else {
        batch_statements(docs.drop_last(), rowids.drop_last()) + record_statements(
            T::table_name(),
            docs.last().0.record_id(),
            docs.last().0.record_values(),
            vectors(docs.last().1@),
            rowids.last(),
        )
    }
}

/// The log after a batch write stopped at record `k`: the statements of the
/// records before it, the `k`-th under row ids `ids`, then the first `m`
/// statements of record `k` with row id `x`, the last of which failed.
pub open spec fn stopped_batch<T: SqliteVectorStoreTable>(
    before: Seq<Sent>,
    docs: Seq<(T, Vec<Embedding>)>,
    k: int,
    ids: Seq<i64>,
    x: i64,
    m: int,
) -> Seq<Sent> {
    before + batch_statements(docs.subrange(0, k), ids) + record_statements(
        T::table_name(),
        docs[k].0.record_id(),
        docs[k].0.record_values(),
        vectors(docs[k].1@),
        x,
    ).subrange(0, m)
}

/// `after` is `before` followed by a batch write that stopped at a failed
/// statement.
pub open spec fn failed_during_batch<T: SqliteVectorStoreTable>(
    before: Seq<Sent>,
    after: Seq<Sent>,
    docs: Seq<(T, Vec<Embedding>)>,
) -> bool {
    exists|k: int, ids: Seq<i64>, x: i64, m: int|
        0 <= k < docs.len() && ids.len() == k && 1 <= m <= 2 + docs[k].1@.len() && after
            == #[trigger] stopped_batch::<T>(before, docs, k, ids, x, m)
}

/// `after` is `before` followed by an abandoned transaction that was to
/// write the batch: BEGIN alone, which failed; or BEGIN, the batch's
/// statements up to one that failed, then ROLLBACK; or BEGIN, the whole
/// batch and a COMMIT that failed, then ROLLBACK.
pub open spec fn batch_aborted<T: SqliteVectorStoreTable>(
    before: Seq<Sent>,
    after: Seq<Sent>,
    docs: Seq<(T, Vec<Embedding>)>,
) -> bool {
    ||| after == before.push(begin_sent())
    ||| exists|k: int, ids: Seq<i64>, x: i64, m: int|
        0 <= k < docs.len() && ids.len() == k && 1 <= m <= 2 + docs[k].1@.len() && after
            == #[trigger] stopped_batch::<T>(before.push(begin_sent()), docs, k, ids, x, m).push(
            rollback_sent(),
        )
    ||| exists|rowids: Seq<i64>|
        rowids.len() == docs.len() && after == before.push(begin_sent()) + #[trigger] batch_statements(
            docs,
            rowids,
        ) + seq![commit_sent(), rollback_sent()]
}

/// `after` is `before` followed by a committed transaction that wrote the
/// batch, the `k`-th record under some row id; `id` is the last of those
/// row ids, or 0 for an empty batch.
pub open spec fn committed_batch<T: SqliteVectorStoreTable>(
    before: Seq<Sent>,
    after: Seq<Sent>,
    docs: Seq<(T, Vec<Embedding>)>,
    id: i64,
) -> bool {
    exists|rowids: Seq<i64>|
        rowids.len() == docs.len() && after == before.push(begin_sent()) + #[trigger] batch_statements(
            docs,
            rowids,
        ) + seq![commit_sent()] && id == (if docs.len() == 0 {
            0
        } else {
            rowids.last()
        })
}

/// Every embedding of the batch has width `dims`.
pub open spec fn batch_fits(docs: Seq<Vec<Embedding>>, dims: nat) -> bool {
    forall|k: int, j: int|
        0 <= k < docs.len() && 0 <= j < docs[k]@.len() ==> #[trigger] docs[k]@[j].vec@.len() == dims
}

pub open spec fn batch_embeddings<T>(docs: Seq<(T, Vec<Embedding>)>) -> Seq<Vec<Embedding>> {
    docs.map_values(|d: (T, Vec<Embedding>)| d.1)
}

/// A row holding one stored embedding: a blob of whole words.
pub open spec fn blob_row(row: Seq<SqlValue>) -> bool {
    row.len() == 1 && row[0] is Blob && row[0]->Blob_0@.len() % 4 == 0
}

/// `v` holds the vectors stored in `rows`, in order.
pub open spec fn vectors_read(rows: Seq<Vec<SqlValue>>, v: Seq<Vec<u32>>) -> bool {
    v.len() == rows.len() && forall|i: int|
        0 <= i < v.len() ==> #[trigger] v[i]@ == le_words(rows[i]@[0]->Blob_0@)
}

/// The lookup of the record whose id is `id`.
pub open spec fn select_sent<T: SqliteVectorStoreTable>(id: Seq<char>) -> Sent {
    (select_by_id_text(T::table_name(), schema_column_names(T::table_schema())), seq![Bound::Text(id)])
}

/// The lookup of the stored vectors of the record whose id is `id`.
pub open spec fn vectors_sent<T: SqliteVectorStoreTable>(id: Seq<char>) -> Sent {
    (embeddings_by_id_text(T::table_name()), seq![Bound::Text(id)])
}

/// What a nearest-record lookup sent before it found nothing: the
/// id-only query, then possibly the lookup of the record it named and of
/// that record's vectors.
pub open spec fn found_nothing_after<T: SqliteVectorStoreTable>(before: Seq<Sent>, after: Seq<Sent>, knn: Sent) -> bool {
    ||| after == before.push(knn)
    ||| exists|i: Seq<char>| after == before.push(knn).push(#[trigger] select_sent::<T>(i))
    ||| exists|i: Seq<char>| after == before.push(knn).push(#[trigger] select_sent::<T>(i)).push(vectors_sent::<T>(i))
}

/// The last statement sent read the stored vectors of the record `id`, and
/// `v` holds what it returned.
pub open spec fn stored_vectors_read(log: Seq<Sent>, id: Seq<char>, table: Seq<char>, v: Seq<Vec<u32>>) -> bool {
    &&& log.len() > 0
    &&& log.last() == (embeddings_by_id_text(table), seq![Bound::Text(id)])
    &&& exists|rows: Seq<Vec<SqlValue>>| #[trigger] vectors_read(rows, v)
}

/// Reads one stored vector per row; fails when a row is not a blob of
/// whole words.
pub fn read_vectors(rows: &Vec<Vec<SqlValue>>) -> (r: Result<Vec<Vec<u32>>, SqliteError>)
    ensures
        r is Ok <==> forall|i: int| 0 <= i < rows@.len() ==> #[trigger] blob_row(rows@[i]@),
        r matches Ok(v) ==> vectors_read(rows@, v@),
        r is Err ==> r->Err_0 is SerializationError,
{
    let mut v: Vec<Vec<u32>> = Vec::new();
    let mut i: usize = 0;
    while i < rows.len()
        invariant
            i <= rows@.len(),
            v@.len() == i,
            forall|j: int| 0 <= j < i ==> #[trigger] blob_row(rows@[j]@),
            forall|j: int| 0 <= j < i ==> #[trigger] v@[j]@ == le_words(rows@[j]@[0]->Blob_0@),
        decreases rows@.len() - i,
    {
        let row = &rows[i];
        let mut decoded: Option<Vec<u32>> = None;
        if row.len() == 1 {
            match &row[0] {
                SqlValue::Blob(b) => {
                    decoded = deserialize_embedding(b);
                },
                _ => {},
            }
        }
        match decoded {
            Some(words) => v.push(words),
            None => {
                assert(!blob_row(rows@[i as int]@));
                return Err(SqliteError::SerializationError(String::from_str("embedding is not a whole number of words")));
            },
        }
        i = i + 1;
    }
    Ok(v)
}

/// A store of records of kind `T` with embeddings of a fixed width.
pub struct SqliteVectorStore<T> {
    pub dims: usize,
    pub _marker: PhantomData<T>,
}

impl<T: SqliteVectorStoreTable> SqliteVectorStore<T> {
    /// The width fits the byte form of an embedding.
    pub open spec fn wf(&self) -> bool {
        4 * self.dims <= usize::MAX
    }

    /// A store over tables that already exist.
    pub fn attach(dims: usize) -> (r: Self)
        requires
            4 * dims <= usize::MAX,
        ensures
            r.dims == dims,
            r.wf(),
    {
        SqliteVectorStore { dims, _marker: PhantomData }
    }

    /// Creates, if missing, the record table, its indexes and the embedding
    /// table of width `dims`, all in one transaction.
    pub fn new(db: &mut Db, dims: usize) -> (r: Result<Self, SqliteError>)
        requires
            4 * dims <= usize::MAX,
        ensures
            final(db).conn == old(db).conn,
            r matches Ok(s) ==> s.dims == dims && s.wf(),
            r matches Ok(_) ==> store_created::<T>(old(db).log@, final(db).log@, dims as nat),
            r matches Err(SqliteError::InvalidIdentifier(_)) <==> !is_identifier(T::table_name())
                || !(forall|i: int| 0 <= i < T::table_schema().len() ==> is_identifier(
                #[trigger] T::table_schema()[i].0)),
            r matches Err(SqliteError::InvalidIdentifier(_)) ==> final(db).log@ == old(db).log@,
            r matches Err(SqliteError::DatabaseError(_)) ==> store_aborted::<T>(
                old(db).log@,
                final(db).log@,
                dims as nat,
            ),
            r is Err ==> r->Err_0 is InvalidIdentifier || r->Err_0 is DatabaseError,
    {
        let table = T::name();
        let schema = T::schema();
        proof {
            assert forall|i: int| 0 <= i < schema@.len() implies is_identifier(
                #[trigger] schema@[i].name@,
            ) == is_identifier(T::table_schema()[i].0) by {
                assert(schema_view(schema@)[i] == T::table_schema()[i]);
            }
        }
        if !check_identifier(table.as_str()) {
            return Err(SqliteError::InvalidIdentifier(table));
        }
        if !check_column_names(&schema) {
            return Err(SqliteError::InvalidIdentifier(table));
        }
        let ghost start = db.log@;
        let ghost full = create_store_statements(T::table_name(), schema@, dims as nat);
        let ghost objects = object_statements(T::table_name(), schema@, dims as nat);
        assert(full.subrange(0, 1) =~= seq![begin_sent()]);
        match exec_plain(db, "BEGIN") {
            Ok(()) => {},
            Err(e) => {
                assert(db.log@ =~= start + full.subrange(0, 1));
                assert(aborted_within(start, db.log@, full));
                return Err(e);
            },
        }
        let ghost opened = db.log@;
        let created = Self::create_objects(db, table.as_str(), &schema, dims);
        match created {
            Ok(()) => {},
            Err(e) => {
                let ghost failed = db.log@;
                let _ = exec_plain(db, "ROLLBACK");
                proof {
                    let k = choose|k: int|
                        1 <= k <= objects.len() && failed == opened + #[trigger] objects.subrange(0, k);
                    assert(full.subrange(0, k + 1) =~= seq![begin_sent()] + objects.subrange(0, k));
                    assert(db.log@ =~= start + full.subrange(0, k + 1) + seq![rollback_sent()]);
                    assert(aborted_within(start, db.log@, full));
                }
                return Err(e);
            },
        }
        assert(db.log@ =~= start + full.subrange(0, full.len() - 1));
        match exec_plain(db, "COMMIT") {
            Ok(()) => {},
            Err(e) => {
                let _ = exec_plain(db, "ROLLBACK");
                proof {
                    assert(full.len() == objects.len() + 2);
                    assert(full.subrange(0, full.len() as int) =~= full);
                    assert(db.log@ =~= start + full.subrange(0, full.len() as int) + seq![rollback_sent()]);
                    assert(aborted_within(start, db.log@, full));
                }
                return Err(e);
            },
        }
        proof {
            assert(final(db).log@ =~= start + full);
            assert(store_created::<T>(start, final(db).log@, dims as nat));
        }
        Ok(SqliteVectorStore { dims, _marker: PhantomData })
    }

    /// Refuses a batch that holds an embedding of another width than the
    /// store's.
    pub fn check_widths(&self, documents: &Vec<(T, Vec<Embedding>)>) -> (r: Result<(), SqliteError>)
        ensures
            r is Ok <==> batch_fits(batch_embeddings(documents@), self.dims as nat),
            r is Err ==> r->Err_0 is DimensionMismatch,
    {
        let mut k: usize = 0;
        while k < documents.len()
            invariant
                k <= documents@.len(),
                forall|a: int, j: int|
                    0 <= a < k && 0 <= j < batch_embeddings(documents@)[a]@.len()
                        ==> #[trigger] batch_embeddings(documents@)[a]@[j].vec@.len() == self.dims,
            decreases documents@.len() - k,
        {
            let embs = &documents[k].1;
            let mut j: usize = 0;
            while j < embs.len()
                invariant
                    j <= embs@.len(),
                    k < documents@.len(),
                    embs == batch_embeddings(documents@)[k as int],
                    forall|b: int| 0 <= b < j ==> #[trigger] embs@[b].vec@.len() == self.dims,
                decreases embs@.len() - j,
            {
                if embs[j].vec.len() != self.dims {
                    assert(batch_embeddings(documents@)[k as int]@[j as int].vec@.len() != self.dims);
                    return Err(SqliteError::DimensionMismatch { expected: self.dims, found: embs[j].vec.len() });
                }
                j = j + 1;
            }
            k = k + 1;
        }
        Ok(())
    }

    /// Writes a batch of records with their embeddings inside a transaction
    /// that the caller has opened and will end. Each record replaces any
    /// earlier one with the same id, together with that one's embeddings.
    /// Returns the row id of the last record written, or 0 for an empty
    /// batch. Nothing is sent when an embedding has the wrong width.
    pub fn add_rows_with_txn(&self, db: &mut Db, documents: &Vec<(T, Vec<Embedding>)>) -> (r: Result<
        i64,
        SqliteError,
    >)
        requires
            self.wf(),
        ensures
            final(db).conn == old(db).conn,
            r matches Err(SqliteError::DimensionMismatch { .. }) <==> !batch_fits(
                batch_embeddings(documents@),
                self.dims as nat,
            ),
            r matches Err(SqliteError::DimensionMismatch { .. }) ==> final(db).log@ == old(db).log@,
            r is Err ==> r->Err_0 is DatabaseError || r->Err_0 is DimensionMismatch,
            r matches Err(SqliteError::DatabaseError(_)) ==> failed_during_batch::<T>(
                old(db).log@,
                final(db).log@,
                documents@,
            ),
            r matches Ok(id) ==> exists|rowids: Seq<i64>|
                rowids.len() == documents@.len() && final(db).log@ == old(db).log@
                    + batch_statements(documents@, rowids) && id == (if documents@.len() == 0 {
                    0
                } else {
                    rowids.last()
                }),
    {
        self.check_widths(documents)?;
        let table = T::name();
        let delete = delete_embeddings_sql(table.as_str());
        let insert = insert_embedding_sql(table.as_str());
        let ghost start = db.log@;
        let ghost mut rowids: Seq<i64> = Seq::empty();
        let mut last_id: i64 = 0;
        let mut k: usize = 0;
        assert(documents@.subrange(0, 0) =~= Seq::<(T, Vec<Embedding>)>::empty());
        assert(db.log@ =~= start + batch_statements(documents@.subrange(0, 0), rowids));
        while k < documents.len()
            invariant
                k <= documents@.len(),
                self.wf(),
                batch_fits(batch_embeddings(documents@), self.dims as nat),
                table@ == T::table_name(),
                delete@ == delete_embeddings_text(T::table_name()),
                insert@ == insert_embedding_text(T::table_name()),
                rowids.len() == k,
                last_id == (if k == 0 { 0 } else { rowids.last() }),
                db.conn == old(db).conn,
                db.log@ == start + batch_statements(documents@.subrange(0, k as int), rowids),
                start == old(db).log@,
            decreases documents@.len() - k,
        {
            let doc = &documents[k].0;
            let embs = &documents[k].1;
            let values = doc.column_values();
            let mut names: Vec<String> = Vec::new();
            let mut params: Vec<Param> = Vec::new();
            let mut i: usize = 0;
            while i < values.len()
                invariant
                    i <= values@.len(),
                    names@.len() == i,
                    params@.len() == i,
                    forall|a: int| 0 <= a < i ==> #[trigger] names@[a]@ == values@[a].0@,
                    forall|a: int| 0 <= a < i ==> #[trigger] bound_of(params@[a]) == Bound::Text(values@[a].1@),
                decreases values@.len() - i,
            {
                names.push(values[i].0.clone());
                params.push(Param::Text(values[i].1.clone()));
                i = i + 1;
            }
            proof {
                assert forall|a: int| 0 <= a < values@.len() implies #[trigger] pair_views(values@)[a]
                    == (values@[a].0@, values@[a].1@) by {}
                assert(views(names@) =~= value_names(doc.record_values()));
                assert(bounds(params@) =~= value_params(doc.record_values()));
            }
            let id_params = vec![Param::Text(doc.id())];
            assert(bounds(id_params@) =~= seq![Bound::Text(doc.record_id())]);
            let ghost rec0 = record_statements(
                T::table_name(),
                doc.record_id(),
                doc.record_values(),
                vectors(embs@),
                0,
            );
            let ghost base = db.log@;
            match exec(db, delete.as_str(), &id_params) {
                Ok(_) => {},
                Err(e) => {
                    proof {
                        assert(db.log@ =~= stopped_batch::<T>(start, documents@, k as int, rowids, 0, 1));
                        assert(failed_during_batch::<T>(start, db.log@, documents@));
                    }
                    return Err(e);
                },
            }
            match exec(db, upsert_sql(table.as_str(), &names).as_str(), &params) {
                Ok(_) => {},
                Err(e) => {
                    proof {
                        assert(db.log@ =~= stopped_batch::<T>(start, documents@, k as int, rowids, 0, 2));
                        assert(failed_during_batch::<T>(start, db.log@, documents@));
                    }
                    return Err(e);
                },
            }
            last_id = last_insert_rowid(db);
            let ghost vecs = vectors(embs@);
            let ghost mid = db.log@;
            assert(mid =~= start + batch_statements(documents@.subrange(0, k as int), rowids) + record_statements(
                T::table_name(),
                doc.record_id(),
                doc.record_values(),
                vecs,
                last_id,
            ).subrange(0, 2));
            let mut j: usize = 0;
            assert(db.log@ =~= mid + embedding_statements(T::table_name(), vecs.subrange(0, 0), last_id));
            while j < embs.len()
                invariant
                    j <= embs@.len(),
                    self.wf(),
                    embs == batch_embeddings(documents@)[k as int],
                    batch_fits(batch_embeddings(documents@), self.dims as nat),
                    k < documents@.len(),
                    vecs == vectors(embs@),
                    insert@ == insert_embedding_text(T::table_name()),
                    db.conn == old(db).conn,
                    db.log@ == mid + embedding_statements(T::table_name(), vecs.subrange(0, j as int), last_id),
                mid == start + batch_statements(documents@.subrange(0, k as int), rowids) + record_statements(
                    T::table_name(),
                    doc.record_id(),
                    doc.record_values(),
                    vecs,
                    last_id,
                ).subrange(0, 2),
                rowids.len() == k,
                doc == documents@[k as int].0,
                start == old(db).log@,
                decreases embs@.len() - j,
            {
                assert(embs@[j as int].vec@.len() == self.dims);
                let blob = serialize_embedding(&embs[j].vec);
                let p = vec![Param::Integer(last_id), Param::Blob(blob)];
                assert(bounds(p@) =~= seq![Bound::Integer(last_id), Bound::Blob(le_bytes(vecs[j as int]))]);
                match exec(db, insert.as_str(), &p) {
                    Ok(_) => {},
                    Err(e) => {
                        proof {
                            let full = record_statements(
                                T::table_name(),
                                doc.record_id(),
                                doc.record_values(),
                                vecs,
                                last_id,
                            );
                            assert(full.subrange(0, j + 3) =~= full.subrange(0, 2) + embedding_statements(
                                T::table_name(),
                                vecs.subrange(0, j as int),
                                last_id,
                            ).push(embedding_sent(T::table_name(), vecs[j as int], last_id)));
                            assert(db.log@ =~= stopped_batch::<T>(
                                start,
                                documents@,
                                k as int,
                                rowids,
                                last_id,
                                j + 3,
                            ));
                            assert(failed_during_batch::<T>(start, db.log@, documents@));
                        }
                        return Err(e);
                    },
                }
                j = j + 1;
                assert(embedding_statements(T::table_name(), vecs.subrange(0, j as int), last_id) =~=
                    embedding_statements(T::table_name(), vecs.subrange(0, j - 1), last_id).push(
                    embedding_sent(T::table_name(), vecs[j - 1], last_id)));
            }
            assert(vecs.subrange(0, embs@.len() as int) =~= vecs);
            proof {
                let pre = documents@.subrange(0, k as int);
                let post = documents@.subrange(0, k + 1);
                assert(post.drop_last() =~= pre);
                assert(post.last() == documents@[k as int]);
                let new_ids = rowids.push(last_id);
                assert(new_ids.drop_last() =~= rowids);
                assert(db.log@ =~= start + batch_statements(post, new_ids));
                rowids = new_ids;
            }
            k = k + 1;
        }
        assert(documents@.subrange(0, documents@.len() as int) =~= documents@);
        Ok(last_id)
    }

    /// Writes a batch atomically: the whole batch is committed, or a
    /// failure after the transaction began ends in a rollback.
    pub fn add_rows(&self, db: &mut Db, documents: &Vec<(T, Vec<Embedding>)>) -> (r: Result<
        i64,
        SqliteError,
    >)
        requires
            self.wf(),
        ensures
            final(db).conn == old(db).conn,
            r matches Err(SqliteError::DimensionMismatch { .. }) <==> !batch_fits(
                batch_embeddings(documents@),
                self.dims as nat,
            ),
            r matches Ok(id) ==> committed_batch(old(db).log@, final(db).log@, documents@, id),
            r matches Err(SqliteError::DimensionMismatch { .. }) ==> final(db).log@ == old(db).log@,
            r matches Err(SqliteError::DatabaseError(_)) ==> batch_aborted::<T>(
                old(db).log@,
                final(db).log@,
                documents@,
            ),
            r is Err ==> r->Err_0 is DatabaseError || r->Err_0 is DimensionMismatch,
    {
        self.check_widths(documents)?;
        match exec_plain(db, "BEGIN") {
            Ok(()) => {},
            Err(e) => {
                assert(batch_aborted::<T>(old(db).log@, db.log@, documents@));
                return Err(e);
            },
        }
        let ghost opened = db.log@;
        match self.add_rows_with_txn(db, documents) {
            Ok(id) => {
                let ghost written = db.log@;
                match exec_plain(db, "COMMIT") {
                    Ok(()) => {
                        proof {
                            let rowids = choose|rowids: Seq<i64>|
                                rowids.len() == documents@.len() && written == opened
                                    + batch_statements(documents@, rowids) && id == (if documents@.len()
                                    == 0 {
                                    0
                                } else {
                                    rowids.last()
                                });
                            assert(db.log@ =~= old(db).log@.push(begin_sent()) + batch_statements(documents@, rowids)
                                + seq![commit_sent()]);
                            assert(committed_batch(old(db).log@, db.log@, documents@, id));
                        }
                        Ok(id)
                    },
                    Err(e) => {
                        let _ = exec_plain(db, "ROLLBACK");
                        proof {
                            let rowids = choose|rowids: Seq<i64>|
                                rowids.len() == documents@.len() && written == opened
                                    + batch_statements(documents@, rowids) && id == (if documents@.len()
                                    == 0 {
                                    0
                                } else {
                                    rowids.last()
                                });
                            assert(db.log@ =~= old(db).log@.push(begin_sent()) + batch_statements(documents@, rowids)
                                + seq![commit_sent(), rollback_sent()]);
                            assert(batch_aborted::<T>(old(db).log@, db.log@, documents@));
                        }
                        Err(e)
                    },
                }
            },
            Err(e) => {
                let ghost failed = db.log@;
                let _ = exec_plain(db, "ROLLBACK");
                proof {
                    if e is DatabaseError {
                        let (k, ids, x, m) = choose|k: int, ids: Seq<i64>, x: i64, m: int|
                            0 <= k < documents@.len() && ids.len() == k && 1 <= m <= 2 + documents@[k].1@.len()
                                && failed == #[trigger] stopped_batch::<T>(opened, documents@, k, ids, x, m);
                        assert(db.log@ == stopped_batch::<T>(old(db).log@.push(begin_sent()), documents@, k, ids, x, m).push(
                            rollback_sent(),
                        ));
                        assert(batch_aborted::<T>(old(db).log@, db.log@, documents@));
                    }
                }
                Err(e)
            },
        }
    }

    /// A read index over this store.
    pub fn index(self) -> (r: SqliteVectorIndex<T>)
        ensures
            r.store == self,
    {
        SqliteVectorIndex::new(self)
    }

    /// The names of the table's columns, in schema order.
    fn schema_names() -> (r: Vec<String>)
        ensures
            views(r@) == schema_column_names(T::table_schema()),
            r@.len() == T::table_schema().len(),
    {
        let schema = T::schema();
        let mut names: Vec<String> = Vec::new();
        let mut i: usize = 0;
        while i < schema.len()
            invariant
                i <= schema@.len(),
                names@.len() == i,
                forall|a: int| 0 <= a < i ==> #[trigger] names@[a]@ == schema@[a].name@,
            decreases schema@.len() - i,
        {
            names.push(schema[i].name.clone());
            i = i + 1;
        }
        proof {
            assert forall|a: int| 0 <= a < schema@.len() implies #[trigger] names@[a]@ == T::table_schema()[a].0 by {
                assert(schema_view(schema@)[a] == T::table_schema()[a]);
            }
        }
        assert(views(names@) =~= schema_column_names(T::table_schema()));
        names
    }

    /// The record with the given id, if any.
    pub fn get_document(&self, db: &mut Db, id: &str) -> (r: Result<Option<T>, SqliteError>)
        ensures
            final(db).conn == old(db).conn,
            final(db).log@ == old(db).log@.push(
                (
                    select_by_id_text(T::table_name(), schema_column_names(T::table_schema())),
                    seq![Bound::Text(id@)],
                ),
            ),
            r is Err ==> r->Err_0 is DatabaseError || r->Err_0 is SerializationError,
            r matches Err(SqliteError::SerializationError(_)) ==> exists|rows: Seq<Vec<SqlValue>>|
                #[trigger] first_record_unreadable::<T>(rows),
            r is Ok ==> exists|rows: Seq<Vec<SqlValue>>| #[trigger] first_record::<T>(rows, r->Ok_0),
    {
        let table = T::name();
        let names = Self::schema_names();
        let p = vec![Param::Text(String::from_str(id))];
        assert(bounds(p@) =~= seq![Bound::Text(id@)]);
        let rows = exec(db, select_by_id_sql(table.as_str(), &names).as_str(), &p)?;
        read_first_record(&rows)
    }

    /// The record with the given id and its stored vectors, if the record
    /// exists.
    pub fn get_document_embeddings(&self, db: &mut Db, id: &str) -> (r: Result<
        Option<(T, Vec<Vec<u32>>)>,
        SqliteError,
    >)
        ensures
            final(db).conn == old(db).conn,
            r matches Ok(Some(found)) ==> stored_vectors_read(final(db).log@, id@, T::table_name(), found.1@),
            r matches Ok(Some(_)) ==> final(db).log@ == old(db).log@.push(select_sent::<T>(id@)).push(
                vectors_sent::<T>(id@),
            ),
            r matches Ok(None) ==> final(db).log@ == old(db).log@.push(select_sent::<T>(id@)),
            final(db).log@.len() > old(db).log@.len(),
            final(db).log@.subrange(0, old(db).log@.len() as int) == old(db).log@,
            final(db).log@[old(db).log@.len() as int] == select_sent::<T>(id@),
            r is Err ==> r->Err_0 is DatabaseError || r->Err_0 is SerializationError,
    {
        let doc = self.get_document(db, id);
        assert(db.log@.subrange(0, old(db).log@.len() as int) =~= old(db).log@);
        let doc = doc?;
        match doc {
            None => Ok(None),
            Some(rec) => {
                let table = T::name();
                let p = vec![Param::Text(String::from_str(id))];
                assert(bounds(p@) =~= seq![Bound::Text(id@)]);
                let ghost looked = db.log@;
                let rows = exec(db, embeddings_by_id_sql(table.as_str()).as_str(), &p);
                assert(db.log@.subrange(0, old(db).log@.len() as int) =~= old(db).log@);
                assert(db.log@[old(db).log@.len() as int] == looked[old(db).log@.len() as int]);
                let rows = rows?;
                let vecs = read_vectors(&rows)?;
                let found = (rec, vecs);
                assert(vectors_read(rows@, found.1@));
                assert(stored_vectors_read(db.log@, id@, T::table_name(), found.1@));
                assert(db.log@.subrange(0, old(db).log@.len() as int) =~= old(db).log@);
                Ok(Some(found))
            },
        }
    }

    fn create_objects(db: &mut Db, table: &str, schema: &Vec<crate::schema::Column>, dims: usize) -> (r: Result<(), SqliteError>)
        ensures
            final(db).conn == old(db).conn,
            r is Ok ==> final(db).log@ == old(db).log@ + object_statements(table@, schema@, dims as nat),
            r is Err ==> sent_prefix(old(db).log@, final(db).log@, object_statements(table@, schema@, dims as nat)),
            r is Err ==> r->Err_0 is DatabaseError,
    {
        let ghost start = db.log@;
        let ghost objects = object_statements(table@, schema@, dims as nat);
        match exec_plain(db, create_table_sql(table, schema).as_str()) {
            Ok(()) => {},
            Err(e) => {
                assert(db.log@ =~= start + objects.subrange(0, 1));
                assert(sent_prefix(start, db.log@, objects));
                return Err(e);
            },
        }
        let indexes = create_indexes_sql(table, schema);
        let ghost idx = plain_all(create_indexes_text(table@, schema@));
        let mut i: usize = 0;
        assert(db.log@ =~= start + seq![(create_table_text(table@, schema@), Seq::<Bound>::empty())]
            + idx.subrange(0, 0));
        while i < indexes.len()
            invariant
                i <= indexes@.len(),
                views(indexes@) == create_indexes_text(table@, schema@),
                idx == plain_all(create_indexes_text(table@, schema@)),
                db.conn == old(db).conn,
                db.log@ == start + seq![(create_table_text(table@, schema@), Seq::<Bound>::empty())] + idx.subrange(0, i as int),
                objects == object_statements(table@, schema@, dims as nat),
                start == old(db).log@,
            decreases indexes@.len() - i,
        {
            match exec_plain(db, indexes[i].as_str()) {
                Ok(()) => {},
                Err(e) => {
                    proof {
                        assert(idx[i as int] == (indexes@[i as int]@, Seq::<Bound>::empty()));
                        assert(idx.len() == indexes@.len());
                        assert(objects.len() == idx.len() + 2);
                        assert(db.log@ =~= start + objects.subrange(0, i + 2));
                        assert(sent_prefix(start, db.log@, objects));
                    }
                    return Err(e);
                },
            }
            proof {
                assert(idx[i as int] == (indexes@[i as int]@, Seq::<Bound>::empty()));
                assert(idx.subrange(0, i + 1) =~= idx.subrange(0, i as int).push(idx[i as int]));
            }
            i = i + 1;
        }
        assert(idx.subrange(0, indexes@.len() as int) =~= idx);
        let ghost mid = db.log@;
        assert(mid == start + seq![(create_table_text(table@, schema@), Seq::<Bound>::empty())] + idx);
        match exec_plain(db, create_embeddings_sql(table, dims as u64).as_str()) {
            Ok(()) => {},
            Err(e) => {
                assert(objects.subrange(0, objects.len() as int) =~= objects);
                assert(db.log@ =~= start + objects.subrange(0, objects.len() as int));
                assert(sent_prefix(start, db.log@, objects));
                return Err(e);
            },
        }
        assert(db.log@ =~= start + objects);
        Ok(())
    }
}

/// The parameters of a nearest-neighbour query: the query vector's bytes
/// and the number of neighbours asked for.
pub open spec fn knn_params(v: Seq<u32>, n: i64) -> Seq<Bound> {
    seq![Bound::Blob(le_bytes(v)), Bound::Integer(n)]
}

/// A query for vector `v` hands the index the very bytes that were stored
/// for `v` when it was written.
pub proof fn query_bytes_match_stored_bytes(table: Seq<char>, v: Seq<u32>, rowid: i64, n: i64)
    ensures
        embedding_sent(table, v, rowid).1[1] == knn_params(v, n)[0],
{
}

/// A row of a nearest-neighbour result: the record's columns, then the
/// distance as a floating-point value.
pub open spec fn match_row<T: SqliteVectorStoreTable>(row: Seq<SqlValue>, width: nat) -> bool {
    row.len() == width + 1 && row[width as int] is Real && T::row_readable(row)
}

/// The rows of a result that read back as records, in order.
pub open spec fn kept_rows<T: SqliteVectorStoreTable>(rows: Seq<Vec<SqlValue>>, width: nat) -> Seq<
    Vec<SqlValue>,
>
    decreases rows.len(),
{
    if rows.len() == 0 {
        Seq::empty()
    } else if match_row::<T>(rows.last()@, width) {
        kept_rows::<T>(rows.drop_last(), width).push(rows.last())
    } else {
        kept_rows::<T>(rows.drop_last(), width)
    }
}

/// A scored match agrees with the row it was read from.
pub open spec fn scored_from<T: SqliteVectorStoreTable>(
    m: (u64, String, T),
    row: Seq<SqlValue>,
    width: nat,
) -> bool {
    &&& row[width as int] == SqlValue::Real(m.0)
    &&& T::row_matches(row, m.2)
    &&& m.1@ == m.2.record_id()
}

/// Reads the records of a nearest-neighbour result, keeping the order and
/// skipping rows that do not read back as a record.
pub fn collect_matches<T: SqliteVectorStoreTable>(rows: &Vec<Vec<SqlValue>>, width: usize) -> (r: Vec<
    (u64, String, T),
>)
    ensures
        r@.len() == kept_rows::<T>(rows@, width as nat).len(),
        forall|i: int|
            0 <= i < r@.len() ==> #[trigger] scored_from::<T>(
                r@[i],
                kept_rows::<T>(rows@, width as nat)[i]@,
                width as nat,
            ),
{
    let mut r: Vec<(u64, String, T)> = Vec::new();
    let mut k: usize = 0;
    while k < rows.len()
        invariant
            k <= rows@.len(),
            r@.len() == kept_rows::<T>(rows@.subrange(0, k as int), width as nat).len(),
            forall|i: int|
                0 <= i < r@.len() ==> #[trigger] scored_from::<T>(
                    r@[i],
                    kept_rows::<T>(rows@.subrange(0, k as int), width as nat)[i]@,
                    width as nat,
                ),
        decreases rows@.len() - k,
    {
        let ghost pre = rows@.subrange(0, k as int);
        let ghost post = rows@.subrange(0, k + 1);
        proof {
            assert(post.drop_last() =~= pre);
            assert(post.last() == rows@[k as int]);
        }
        let row = &rows[k];
        let mut kept = false;
        if row.len() > width && row.len() - 1 == width {
            match &row[width] {
                SqlValue::Real(bits) => {
                    match T::from_row(row) {
                        Some(rec) => {
                            let id = rec.id();
                            r.push((*bits, id, rec));
                            kept = true;
                        },
                        None => {},
                    }
                },
                _ => {},
            }
        }
        proof {
            if kept {
                assert(match_row::<T>(rows@[k as int]@, width as nat));
                assert(kept_rows::<T>(post, width as nat) == kept_rows::<T>(pre, width as nat).push(
                    rows@[k as int],
                ));
            } else {
                assert(!match_row::<T>(rows@[k as int]@, width as nat));
                assert(kept_rows::<T>(post, width as nat) == kept_rows::<T>(pre, width as nat));
            }
        }
        k = k + 1;
    }
    assert(rows@.subrange(0, rows@.len() as int) =~= rows@);
    r
}

/// The names in a schema, in order.
pub open spec fn schema_column_names(s: Seq<(Seq<char>, Seq<char>, bool)>) -> Seq<Seq<char>> {
    s.map_values(|c: (Seq<char>, Seq<char>, bool)| c.0)
}

/// Where the first row reads back as a record, that record; `None` for no
/// rows.
pub open spec fn first_record<T: SqliteVectorStoreTable>(rows: Seq<Vec<SqlValue>>, r: Option<T>) -> bool {
    match r {
        None => rows.len() == 0,
        Some(x) => rows.len() > 0 && T::row_matches(rows[0]@, x),
    }
}

/// The first row does not read back as a record.
pub open spec fn first_record_unreadable<T: SqliteVectorStoreTable>(rows: Seq<Vec<SqlValue>>) -> bool {
    rows.len() > 0 && !T::row_readable(rows[0]@)
}

/// Reads the first row as a record; no rows read as `None`.
pub fn read_first_record<T: SqliteVectorStoreTable>(rows: &Vec<Vec<SqlValue>>) -> (r: Result<
    Option<T>,
    SqliteError,
>)
    ensures
        r is Err <==> first_record_unreadable::<T>(rows@),
        r matches Ok(x) ==> first_record::<T>(rows@, x),
        r is Err ==> r->Err_0 is SerializationError,
{
    if rows.len() == 0 {
        return Ok(None);
    }
    match T::from_row(&rows[0]) {
        Some(rec) => Ok(Some(rec)),
        None => Err(SqliteError::SerializationError(String::from_str("row does not read back as a record"))),
    }
}

/// A row of an id-only nearest-neighbour result: the id, then the distance.
pub open spec fn id_row(row: Seq<SqlValue>) -> bool {
    row.len() == 2 && row[0] is Text && row[1] is Real
}

/// The rows of an id-only result that have that shape, in order.
pub open spec fn kept_id_rows(rows: Seq<Vec<SqlValue>>) -> Seq<Vec<SqlValue>>
    decreases rows.len(),
{
    if rows.len() == 0 {
        Seq::empty()
    } else if id_row(rows.last()@) {
        kept_id_rows(rows.drop_last()).push(rows.last())
    } else {
        kept_id_rows(rows.drop_last())
    }
}

/// A (distance, id) pair agrees with the row it was read from.
pub open spec fn id_from(m: (u64, String), row: Seq<SqlValue>) -> bool {
    row[1] == SqlValue::Real(m.0) && text_of(row[0]) == Some(m.1@)
}

/// Reads the (distance, id) pairs of an id-only result, keeping the order
/// and skipping rows of another shape.
pub fn collect_ids(rows: &Vec<Vec<SqlValue>>) -> (r: Vec<(u64, String)>)
    ensures
        r@.len() == kept_id_rows(rows@).len(),
        forall|i: int| 0 <= i < r@.len() ==> #[trigger] id_from(r@[i], kept_id_rows(rows@)[i]@),
{
    let mut r: Vec<(u64, String)> = Vec::new();
    let mut k: usize = 0;
    while k < rows.len()
        invariant
            k <= rows@.len(),
            r@.len() == kept_id_rows(rows@.subrange(0, k as int)).len(),
            forall|i: int|
                0 <= i < r@.len() ==> #[trigger] id_from(
                    r@[i],
                    kept_id_rows(rows@.subrange(0, k as int))[i]@,
                ),
        decreases rows@.len() - k,
    {
        let ghost pre = rows@.subrange(0, k as int);
        let ghost post = rows@.subrange(0, k + 1);
        proof {
            assert(post.drop_last() =~= pre);
            assert(post.last() == rows@[k as int]);
        }
        let row = &rows[k];
        let mut kept = false;
        if row.len() == 2 {
            match (&row[0], &row[1]) {
                (SqlValue::Text(id), SqlValue::Real(bits)) => {
                    let t = id.clone();
                    assert(t@ == id@);
                    assert(rows@[k as int]@[1] == SqlValue::Real(*bits));
                    assert(text_of(rows@[k as int]@[0]) == Some(t@));
                    r.push((*bits, t));
                    kept = true;
                },
                _ => {},
            }
        }
        proof {
            if kept {
                assert(kept_id_rows(post) == kept_id_rows(pre).push(rows@[k as int]));
                assert(kept_id_rows(post)[r@.len() - 1] == rows@[k as int]);
            } else {
                assert(kept_id_rows(post) == kept_id_rows(pre));
            }
        }
        k = k + 1;
    }
    assert(rows@.subrange(0, rows@.len() as int) =~= rows@);
    r
}

/// The number of neighbours bound to a query: `n`, or the largest count the
/// database takes.
pub open spec fn count_param(n: nat) -> i64 {
    if n > i64::MAX {
        i64::MAX
    } else {
        n as i64
    }
}

fn count(n: usize) -> (r: i64)
    ensures
        r == count_param(n as nat),
{
    if n as u64 > i64::MAX as u64 {
        i64::MAX
    } else {
        n as i64
    }
}

/// `v` holds the records read from a nearest-neighbour result of `width`
/// columns plus the distance, in order.
pub open spec fn matches_read<T: SqliteVectorStoreTable>(rows: Seq<Vec<SqlValue>>, width: nat, v: Seq<(u64, String, T)>) -> bool {
    &&& v.len() == kept_rows::<T>(rows, width).len()
    &&& forall|i: int| 0 <= i < v.len() ==> #[trigger] scored_from::<T>(v[i], kept_rows::<T>(rows, width)[i]@, width)
}

/// `v` holds the (distance, id) pairs read from an id-only result, in
/// order.
pub open spec fn ids_read(rows: Seq<Vec<SqlValue>>, v: Seq<(u64, String)>) -> bool {
    &&& v.len() == kept_id_rows(rows).len()
    &&& forall|i: int| 0 <= i < v.len() ==> #[trigger] id_from(v[i], kept_id_rows(rows)[i]@)
}

/// `v` was read, as by `matches_read`, from some result.
pub open spec fn some_matches_read<T: SqliteVectorStoreTable>(width: nat, v: Seq<(u64, String, T)>) -> bool {
    exists|rows: Seq<Vec<SqlValue>>| #[trigger] matches_read::<T>(rows, width, v)
}

/// `v` was read, as by `ids_read`, from some result.
pub open spec fn some_ids_read(v: Seq<(u64, String)>) -> bool {
    exists|rows: Seq<Vec<SqlValue>>| #[trigger] ids_read(rows, v)
}

/// The read side of a store: nearest-neighbour queries by vector.
pub struct SqliteVectorIndex<T> {
    pub store: SqliteVectorStore<T>,
}

impl<T: SqliteVectorStoreTable> SqliteVectorIndex<T> {
    pub fn new(store: SqliteVectorStore<T>) -> (r: Self)
        ensures
            r.store == store,
    {
        SqliteVectorIndex { store }
    }

    /// The records nearest to `query`, at most `n` of them asked for,
    /// nearest first as the database orders them, each with its distance
    /// (as a 64-bit floating-point pattern) and id. A query of another width
    /// than the store's is refused before anything is sent.
    pub fn top_n(&self, db: &mut Db, query: &Embedding, n: usize) -> (r: Result<
        Vec<(u64, String, T)>,
        SqliteError,
    >)
        requires
            self.store.wf(),
        ensures
            final(db).conn == old(db).conn,
            r matches Err(SqliteError::DimensionMismatch { .. }) <==> query.vec@.len() != self.store.dims,
            query.vec@.len() != self.store.dims ==> final(db).log@ == old(db).log@,
            query.vec@.len() == self.store.dims ==> final(db).log@ == old(db).log@.push(
                (
                    knn_text(T::table_name(), schema_column_names(T::table_schema())),
                    knn_params(query.vec@, count_param(n as nat)),
                ),
            ),
            r is Err ==> r->Err_0 is DimensionMismatch || r->Err_0 is DatabaseError,
            r matches Ok(v) ==> some_matches_read::<T>(T::table_schema().len(), v@),
    {
        if query.vec.len() != self.store.dims {
            return Err(SqliteError::DimensionMismatch { expected: self.store.dims, found: query.vec.len() });
        }
        let table = T::name();
        let names = SqliteVectorStore::<T>::schema_names();
        let p = vec![Param::Blob(serialize_embedding(&query.vec)), Param::Integer(count(n))];
        assert(bounds(p@) =~= knn_params(query.vec@, count_param(n as nat)));
        let rows = exec(db, knn_sql(table.as_str(), &names).as_str(), &p)?;
        let found = collect_matches(&rows, names.len());
        assert(matches_read::<T>(rows@, T::table_schema().len(), found@));
        assert(some_matches_read::<T>(T::table_schema().len(), found@));
        Ok(found)
    }

    /// The ids of the records nearest to `query`, ranked as by `top_n`,
    /// without reading the records.
    pub fn top_n_ids(&self, db: &mut Db, query: &Embedding, n: usize) -> (r: Result<
        Vec<(u64, String)>,
        SqliteError,
    >)
        requires
            self.store.wf(),
        ensures
            final(db).conn == old(db).conn,
            r matches Err(SqliteError::DimensionMismatch { .. }) <==> query.vec@.len() != self.store.dims,
            query.vec@.len() != self.store.dims ==> final(db).log@ == old(db).log@,
            query.vec@.len() == self.store.dims ==> final(db).log@ == old(db).log@.push(
                (knn_text(T::table_name(), seq!["id"@]), knn_params(query.vec@, count_param(n as nat))),
            ),
            r is Err ==> r->Err_0 is DimensionMismatch || r->Err_0 is DatabaseError,
            r matches Ok(v) ==> some_ids_read(v@),
    {
        if query.vec.len() != self.store.dims {
            return Err(SqliteError::DimensionMismatch { expected: self.store.dims, found: query.vec.len() });
        }
        let table = T::name();
        let names = vec![String::from_str("id")];
        assert(views(names@) =~= seq!["id"@]);
        let p = vec![Param::Blob(serialize_embedding(&query.vec)), Param::Integer(count(n))];
        assert(bounds(p@) =~= knn_params(query.vec@, count_param(n as nat)));
        let rows = exec(db, knn_sql(table.as_str(), &names).as_str(), &p)?;
        let found = collect_ids(&rows);
        assert(ids_read(rows@, found@));
        assert(some_ids_read(found@));
        Ok(found)
    }

    /// The record nearest to `query`, with its stored vectors; `None` when
    /// the store is empty.
    pub fn get_document_by_query(&self, db: &mut Db, query: &Embedding) -> (r: Result<
        Option<(T, Vec<Vec<u32>>)>,
        SqliteError,
    >)
        requires
            self.store.wf(),
        ensures
            final(db).conn == old(db).conn,
            r matches Err(SqliteError::DimensionMismatch { .. }) <==> query.vec@.len() != self.store.dims,
            r matches Ok(Some(found)) ==> stored_vectors_read(final(db).log@, found.0.record_id(), T::table_name(), found.1@),
            query.vec@.len() == self.store.dims ==> final(db).log@.len() > old(db).log@.len()
                && final(db).log@[old(db).log@.len() as int] == (
                knn_text(T::table_name(), seq!["id"@]),
                knn_params(query.vec@, count_param(1)),
            ),
            r matches Ok(None) ==> found_nothing_after::<T>(
                old(db).log@,
                final(db).log@,
                (knn_text(T::table_name(), seq!["id"@]), knn_params(query.vec@, count_param(1))),
            ),
            r is Err ==> r->Err_0 is DimensionMismatch || r->Err_0 is DatabaseError || r->Err_0 is SerializationError,
    {
        let ghost knn = (knn_text(T::table_name(), seq!["id"@]), knn_params(query.vec@, count_param(1)));
        let ids = self.top_n_ids(db, query, 1)?;
        let ghost after_knn = db.log@;
        if ids.len() == 0 {
            return Ok(None);
        }
        let found = self.store.get_document_embeddings(db, ids[0].1.as_str());
        proof {
            assert(db.log@.subrange(0, after_knn.len() as int) == after_knn);
            assert(db.log@[old(db).log@.len() as int] == db.log@.subrange(0, after_knn.len() as int)[old(db).log@.len() as int]);
        }
        let found = found?;
        match found {
            None => {
                assert(db.log@ == old(db).log@.push(knn).push(select_sent::<T>(ids@[0].1@)));
                assert(found_nothing_after::<T>(old(db).log@, db.log@, knn));
                Ok(None)
            },
            Some((rec, vecs)) => {
                // The record is expected under the id it was looked up by;
                // anything else counts as not found.
                if !crate::text::str_eq(rec.id().as_str(), ids[0].1.as_str()) {
                    assert(db.log@ == old(db).log@.push(knn).push(select_sent::<T>(ids@[0].1@)).push(
                        vectors_sent::<T>(ids@[0].1@),
                    ));
                    assert(found_nothing_after::<T>(old(db).log@, db.log@, knn));
                    return Ok(None);
                }
                Ok(Some((rec, vecs)))
            },
        }
    }
}

} // verus!
