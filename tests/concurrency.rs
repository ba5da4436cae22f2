use asuka::db::Db;
use asuka::embedding::Embedding;
use asuka::knowledge::KnowledgeBase;
use asuka::schema::{create_indexes_sql, create_table_sql};
use asuka::store::{SqliteError, SqliteVectorStore};
use asuka::table::{Document, Message, SqliteVectorStoreTable};
use asuka::types::{ChannelType, Source};

fn setup(conn: &mut rusqlite::Connection) -> Result<(), SqliteError> {
    let name = Message::name();
    let schema = Message::schema();
    conn.execute_batch(&create_table_sql(&name, &schema)).unwrap();
    for stmt in create_indexes_sql(&name, &schema) {
        conn.execute_batch(&stmt).unwrap();
    }
    conn.execute_batch("CREATE TABLE messages_embeddings (rowid INTEGER PRIMARY KEY, embedding BLOB)").unwrap();
    KnowledgeBase::create_dimension_tables(&mut Db::new(conn))
}

fn message(id: &str, channel: &str) -> Message {
    Message {
        id: id.to_string(),
        source: Source::Telegram,
        source_id: "u".to_string(),
        channel_type: ChannelType::DirectMessage,
        channel_id: channel.to_string(),
        account_id: "u".to_string(),
        role: "user".to_string(),
        content: format!("message {}", id),
        created_at: "2024-05-01T12:00:00+00:00".to_string(),
    }
}

#[test]
fn concurrent_writers_on_different_channels_both_commit() {
    let rt = tokio::runtime::Runtime::new().unwrap();
    rt.block_on(async {
        let conn = tokio_rusqlite::Connection::open_in_memory().await.unwrap();
        conn.call(|c| Ok(setup(c))).await.unwrap().unwrap();
        let mut tasks = Vec::new();
        for (id, channel) in [("m1", "left"), ("m2", "right")] {
            let conn = conn.clone();
            tasks.push(tokio::spawn(async move {
                let emb = Embedding { document: String::new(), vec: vec![1, 2, 3] };
                conn.call(move |c| {
                    Ok(KnowledgeBase::attach(3).create_message(&mut Db::new(c), message(id, channel), vec![emb]))
                })
                .await
            }));
        }
        for t in tasks {
            t.await.unwrap().unwrap().unwrap();
        }
        let counts: (i64, i64) = conn
            .call(|c| {
                Ok((
                    c.query_row("SELECT COUNT(*) FROM channels", [], |r| r.get(0))?,
                    c.query_row("SELECT COUNT(*) FROM messages", [], |r| r.get(0))?,
                ))
            })
            .await
            .unwrap();
        assert_eq!(counts, (2, 2));
    });
}

#[test]
fn store_creation_without_vector_extension_rolls_back() {
    let conn = rusqlite::Connection::open_in_memory().unwrap();
    let mut db = Db::new(&conn);
    let r = SqliteVectorStore::<Document>::new(&mut db, 3);
    assert!(matches!(r, Err(SqliteError::DatabaseError(_))));
    let tables: i64 = conn
        .query_row("SELECT COUNT(*) FROM sqlite_master WHERE name = 'documents'", [], |r| r.get(0))
        .unwrap();
    assert_eq!(tables, 0);
    assert!(KnowledgeBase::new(&mut db, 3).is_err());
}
