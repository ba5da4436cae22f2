use asuka::db::Db;
use asuka::embedding::{serialize_embedding, Embedding};
use asuka::knowledge::KnowledgeBase;
use asuka::schema::{create_indexes_sql, create_table_sql};
use asuka::store::{collect_ids, collect_matches, SqliteError, SqliteVectorStore};
use asuka::table::{Document, Message, SqlValue, SqliteVectorStoreTable};
use asuka::types::{ChannelType, Source};
use rusqlite::Connection;

/// The record tables as the library declares them; the embedding tables are
/// plain tables that accept blobs of `width` bytes, standing in for the
/// vector extension, which cannot be loaded here.
fn open(width: usize) -> Connection {
    let conn = Connection::open_in_memory().unwrap();
    for (name, schema) in [
        (Document::name(), Document::schema()),
        (Message::name(), Message::schema()),
    ] {
        conn.execute_batch(&create_table_sql(&name, &schema)).unwrap();
        for stmt in create_indexes_sql(&name, &schema) {
            conn.execute_batch(&stmt).unwrap();
        }
        conn.execute_batch(&format!(
            "CREATE TABLE {}_embeddings (rowid INTEGER PRIMARY KEY, embedding BLOB NOT NULL CHECK (length(embedding) = {}))",
            name, width
        ))
        .unwrap();
    }
    {
        let mut db = Db::new(&conn);
        KnowledgeBase::create_dimension_tables(&mut db).unwrap();
    }
    conn
}

fn count(conn: &Connection, table: &str) -> i64 {
    conn.query_row(&format!("SELECT COUNT(*) FROM {}", table), [], |r| r.get(0)).unwrap()
}

fn emb(v: &[u32]) -> Embedding {
    Embedding { document: String::new(), vec: v.to_vec() }
}

fn message(id: &str, channel: &str, content: &str, second: u32) -> Message {
    Message {
        id: id.to_string(),
        source: Source::Discord,
        source_id: format!("author-{}", id),
        channel_type: ChannelType::Text,
        channel_id: channel.to_string(),
        account_id: "acct".to_string(),
        role: "user".to_string(),
        content: content.to_string(),
        created_at: format!("2024-01-01T00:00:{:02}+00:00", second),
    }
}

fn document(id: &str, content: &str) -> Document {
    Document {
        id: id.to_string(),
        source_id: "docs".to_string(),
        content: content.to_string(),
        created_at: "2024-01-01T00:00:00+00:00".to_string(),
    }
}

#[test]
fn add_rows_writes_record_and_embedding() {
    let conn = open(12);
    let mut db = Db::new(&conn);
    let store = SqliteVectorStore::<Document>::attach(3);
    let id = store.add_rows(&mut db, &vec![(document("d1", "alpha"), vec![emb(&[1, 2, 3])])]).unwrap();
    assert_eq!(count(&conn, "documents"), 1);
    assert_eq!(count(&conn, "documents_embeddings"), 1);
    let blob: Vec<u8> = conn
        .query_row("SELECT embedding FROM documents_embeddings WHERE rowid = ?1", [id], |r| r.get(0))
        .unwrap();
    assert_eq!(blob, serialize_embedding(&vec![1, 2, 3]));
    let rowid: i64 = conn.query_row("SELECT rowid FROM documents WHERE id = 'd1'", [], |r| r.get(0)).unwrap();
    assert_eq!(rowid, id);
}

#[test]
fn add_rows_empty_batch_returns_zero() {
    let conn = open(12);
    let mut db = Db::new(&conn);
    let store = SqliteVectorStore::<Document>::attach(3);
    assert_eq!(store.add_rows(&mut db, &vec![]).unwrap(), 0);
    assert_eq!(count(&conn, "documents"), 0);
}

#[test]
fn rewriting_a_record_replaces_it_and_its_embeddings() {
    let conn = open(12);
    let mut db = Db::new(&conn);
    let store = SqliteVectorStore::<Document>::attach(3);
    store.add_rows(&mut db, &vec![(document("d1", "first"), vec![emb(&[1, 1, 1])])]).unwrap();
    let id = store.add_rows(&mut db, &vec![(document("d1", "second"), vec![emb(&[2, 2, 2])])]).unwrap();
    assert_eq!(count(&conn, "documents"), 1);
    assert_eq!(count(&conn, "documents_embeddings"), 1);
    let content: String = conn.query_row("SELECT content FROM documents", [], |r| r.get(0)).unwrap();
    assert_eq!(content, "second");
    let owner: i64 = conn.query_row("SELECT rowid FROM documents_embeddings", [], |r| r.get(0)).unwrap();
    assert_eq!(owner, id);
}

#[test]
fn failed_embedding_insert_leaves_no_row() {
    // The embedding table takes 16-byte vectors, the store writes 12-byte
    // ones: the record row goes in, the embedding row fails.
    let conn = open(16);
    let mut db = Db::new(&conn);
    let store = SqliteVectorStore::<Document>::attach(3);
    let r = store.add_rows(&mut db, &vec![
        (document("d0", "fine"), vec![]),
        (document("d1", "broken"), vec![emb(&[1, 2, 3])]),
    ]);
    assert!(matches!(r, Err(SqliteError::DatabaseError(_))));
    assert_eq!(count(&conn, "documents"), 0);
    assert_eq!(count(&conn, "documents_embeddings"), 0);
}

#[test]
fn wrong_width_is_refused_before_writing() {
    let conn = open(12);
    let mut db = Db::new(&conn);
    let store = SqliteVectorStore::<Document>::attach(3);
    let r = store.add_rows(&mut db, &vec![(document("d1", "x"), vec![emb(&[1, 2, 3, 4])])]);
    assert!(matches!(r, Err(SqliteError::DimensionMismatch { expected: 3, found: 4 })));
    assert_eq!(count(&conn, "documents"), 0);
}

#[test]
fn query_of_other_width_is_refused() {
    let conn = open(12);
    let mut db = Db::new(&conn);
    let index = SqliteVectorStore::<Document>::attach(3).index();
    let r = index.top_n(&mut db, &emb(&[1, 2, 3, 4]), 1);
    assert!(matches!(r, Err(SqliteError::DimensionMismatch { expected: 3, found: 4 })));
    let r = index.top_n_ids(&mut db, &emb(&[1, 2]), 1);
    assert!(matches!(r, Err(SqliteError::DimensionMismatch { expected: 3, found: 2 })));
}

#[test]
fn query_of_other_width_is_refused_every_time() {
    let conn = open(12);
    let mut db = Db::new(&conn);
    let index = SqliteVectorStore::<Document>::attach(3).index();
    for n in [1usize, 10, usize::MAX] {
        for _ in 0..2 {
            let r = index.top_n(&mut db, &emb(&[1, 2, 3, 4]), n);
            assert!(matches!(r, Err(SqliteError::DimensionMismatch { expected: 3, found: 4 })));
            let r = index.top_n_ids(&mut db, &emb(&[9]), n);
            assert!(matches!(r, Err(SqliteError::DimensionMismatch { expected: 3, found: 1 })));
        }
    }
}

#[test]
fn same_channel_is_recorded_once() {
    let conn = open(12);
    let mut db = Db::new(&conn);
    let kb = KnowledgeBase::attach(3);
    kb.create_message(&mut db, message("m1", "chan", "hi", 1), vec![emb(&[1, 2, 3])]).unwrap();
    kb.create_message(&mut db, message("m2", "chan", "again", 2), vec![emb(&[3, 2, 1])]).unwrap();
    assert_eq!(count(&conn, "channels"), 1);
    assert_eq!(count(&conn, "messages"), 2);
    let channel = kb.get_channel_by_channel_id(&mut db, "chan", "discord").unwrap().unwrap();
    assert_eq!(channel.channel_type, "text");
    assert_eq!(channel.name, None);
}

#[test]
fn writers_on_different_channels_both_land() {
    let conn = open(12);
    let mut db = Db::new(&conn);
    let kb = KnowledgeBase::attach(3);
    kb.create_message(&mut db, message("a", "left", "one", 1), vec![emb(&[1, 1, 1])]).unwrap();
    kb.create_message(&mut db, message("b", "right", "two", 2), vec![emb(&[2, 2, 2])]).unwrap();
    assert_eq!(count(&conn, "channels"), 2);
    assert_eq!(count(&conn, "messages"), 2);
    assert_eq!(kb.channel_messages(&mut db, "left", 10).unwrap().len(), 1);
    assert_eq!(kb.channel_messages(&mut db, "right", 10).unwrap().len(), 1);
}

#[test]
fn failed_message_write_leaves_no_channel() {
    let conn = open(16);
    let mut db = Db::new(&conn);
    let kb = KnowledgeBase::attach(3);
    let r = kb.create_message(&mut db, message("m1", "chan", "hi", 1), vec![emb(&[1, 2, 3])]);
    assert!(matches!(r, Err(SqliteError::DatabaseError(_))));
    assert_eq!(count(&conn, "channels"), 0);
    assert_eq!(count(&conn, "messages"), 0);
}

#[test]
fn history_is_newest_first_and_limited() {
    let conn = open(12);
    let mut db = Db::new(&conn);
    let kb = KnowledgeBase::attach(3);
    for i in 1..=15u32 {
        let m = message(&format!("m{}", i), "X", &format!("text {}", i), i);
        kb.create_message(&mut db, m, vec![emb(&[i, i, i])]).unwrap();
    }
    let history = kb.channel_messages(&mut db, "X", 10).unwrap();
    assert_eq!(history.len(), 10);
    assert_eq!(history[0], ("author-m15".to_string(), "text 15".to_string()));
    assert_eq!(history[9].1, "text 6");
    assert!(kb.channel_messages(&mut db, "X", 0).unwrap().is_empty());
    assert_eq!(kb.channel_messages(&mut db, "X", -1).unwrap().len(), 15);
    let recent = kb.get_recent_messages_in_channel(&mut db, "X", 3).unwrap();
    assert_eq!(recent.len(), 3);
    assert_eq!(recent[0].id, "m15");
    let all = kb.get_recent_messages(&mut db, 100).unwrap();
    assert_eq!(all.len(), 15);
}

#[test]
fn message_reads_back_by_row_id() {
    let conn = open(12);
    let mut db = Db::new(&conn);
    let kb = KnowledgeBase::attach(3);
    let id = kb.create_message(&mut db, message("m1", "c", "stored", 5), vec![emb(&[1, 2, 3])]).unwrap();
    let m = kb.get_message(&mut db, id).unwrap().unwrap();
    assert_eq!(m.id, "m1");
    assert_eq!(m.content, "stored");
    assert_eq!(m.source, Source::Discord);
    assert!(kb.get_message(&mut db, id + 100).unwrap().is_none());
}

#[test]
fn accounts_upsert_by_source_id() {
    let conn = open(12);
    let mut db = Db::new(&conn);
    let kb = KnowledgeBase::attach(3);
    let a = kb.create_user(&mut db, "ann", "discord", "u-1").unwrap();
    let b = kb.create_user(&mut db, "ann again", "discord", "u-1").unwrap();
    assert_eq!(a, b);
    assert_eq!(count(&conn, "accounts"), 1);
    let acct = kb.get_user_by_source(&mut db, "u-1").unwrap().unwrap();
    assert_eq!(acct.id, a);
    assert_eq!(acct.name, "ann");
    assert_eq!(acct.source_id, "u-1");
    assert!(kb.get_user_by_source(&mut db, "u-2").unwrap().is_none());
}

#[test]
fn channels_upsert_and_keep_name() {
    let conn = open(12);
    let mut db = Db::new(&conn);
    let kb = KnowledgeBase::attach(3);
    let a = kb.create_channel(&mut db, "c-1", "text", Some("general".to_string()), "discord").unwrap();
    let b = kb.create_channel(&mut db, "c-1", "text", None, "discord").unwrap();
    assert_eq!(a, b);
    let c = kb.get_channel(&mut db, a).unwrap().unwrap();
    assert_eq!(c.name, Some("general".to_string()));
    assert_eq!(c.channel_id, "c-1");
    kb.create_channel(&mut db, "c-2", "voice", None, "discord").unwrap();
    kb.create_channel(&mut db, "c-3", "text", None, "telegram").unwrap();
    assert_eq!(kb.get_channels_by_source(&mut db, "discord").unwrap().len(), 2);
    assert!(kb.get_channel(&mut db, 999).unwrap().is_none());
}

#[test]
fn add_documents_is_all_or_nothing() {
    let conn = open(12);
    let mut db = Db::new(&conn);
    let kb = KnowledgeBase::attach(3);
    kb.add_documents(&mut db, &vec![
        (document("a", "one"), vec![emb(&[1, 0, 0])]),
        (document("b", "two"), vec![emb(&[0, 1, 0])]),
    ])
    .unwrap();
    assert_eq!(count(&conn, "documents"), 2);
    let r = kb.add_documents(&mut db, &vec![(document("c", "three"), vec![emb(&[1])])]);
    assert!(matches!(r, Err(SqliteError::DimensionMismatch { .. })));
    assert_eq!(count(&conn, "documents"), 2);
}

#[test]
fn nearest_rows_read_back_in_order() {
    let d = document("d1", "alpha");
    let mut row: Vec<SqlValue> = d.column_values().into_iter().map(|(_, v)| SqlValue::Text(v)).collect();
    row.push(SqlValue::Real(0));
    let mut other: Vec<SqlValue> = document("d2", "beta").column_values().into_iter().map(|(_, v)| SqlValue::Text(v)).collect();
    other.push(SqlValue::Real(0x3ff0_0000_0000_0000));
    let broken = vec![SqlValue::Integer(3), SqlValue::Real(1)];
    let found = collect_matches::<Document>(&vec![row, broken, other], 4);
    assert_eq!(found.len(), 2);
    assert_eq!(found[0].0, 0);
    assert_eq!(found[0].1, "d1");
    assert_eq!(found[0].2.content, "alpha");
    assert_eq!(found[1].1, "d2");
    assert_eq!(found[1].0, 0x3ff0_0000_0000_0000);
}

#[test]
fn nearest_ids_read_back_in_order() {
    let rows = vec![
        vec![SqlValue::Text("x".to_string()), SqlValue::Real(5)],
        vec![SqlValue::Text("y".to_string())],
        vec![SqlValue::Text("z".to_string()), SqlValue::Real(7)],
    ];
    let ids = collect_ids(&rows);
    assert_eq!(ids, vec![(5, "x".to_string()), (7, "z".to_string())]);
}

#[test]
fn document_reads_back_with_its_vectors() {
    let conn = open(12);
    let mut db = Db::new(&conn);
    let store = SqliteVectorStore::<Document>::attach(3);
    store.add_rows(&mut db, &vec![(document("d1", "alpha"), vec![emb(&[7, 8, 9])])]).unwrap();
    let doc = store.get_document(&mut db, "d1").unwrap().unwrap();
    assert_eq!(doc.content, "alpha");
    assert!(store.get_document(&mut db, "nope").unwrap().is_none());
    let (doc, vecs) = store.get_document_embeddings(&mut db, "d1").unwrap().unwrap();
    assert_eq!(doc.id, "d1");
    assert_eq!(vecs, vec![vec![7, 8, 9]]);
    assert!(store.get_document_embeddings(&mut db, "nope").unwrap().is_none());
}

#[test]
fn stored_vector_of_wrong_length_is_a_serialization_error() {
    let conn = open(3);
    let mut db = Db::new(&conn);
    conn.execute_batch(
        "INSERT INTO documents (id, source_id, content, created_at) VALUES ('d1', 's', 'c', 't');
         INSERT INTO documents_embeddings (rowid, embedding) VALUES (1, x'010203');",
    )
    .unwrap();
    let store = SqliteVectorStore::<Document>::attach(3);
    let r = store.get_document_embeddings(&mut db, "d1");
    assert!(matches!(r, Err(SqliteError::SerializationError(_))));
}

#[test]
fn text_that_is_not_utf8_is_an_error() {
    let conn = open(12);
    let mut db = Db::new(&conn);
    conn.execute_batch(
        "INSERT INTO accounts (name, source_id, source) VALUES (CAST(x'ff' AS TEXT), 'u-9', 'discord');",
    )
    .unwrap();
    let kb = KnowledgeBase::attach(3);
    let r = kb.get_user_by_source(&mut db, "u-9");
    assert!(matches!(r, Err(SqliteError::DatabaseError(_))));
}

#[test]
fn account_lookup_is_by_source_id() {
    let conn = open(12);
    let mut db = Db::new(&conn);
    let kb = KnowledgeBase::attach(3);
    kb.create_user(&mut db, "ann", "discord", "u-1").unwrap();
    let bob = kb.create_user(&mut db, "bob", "discord", "u-2").unwrap();
    let found = kb.get_user_by_source(&mut db, "u-2").unwrap().unwrap();
    assert_eq!(found.id, bob);
    assert_eq!(found.name, "bob");
    assert!(kb.get_user_by_source(&mut db, "discord").unwrap().is_none());
}
