use asuka::schema::{
    check_identifier, create_embeddings_sql, create_indexes_sql, create_table_sql,
    delete_embeddings_sql, insert_embedding_sql, knn_sql, upsert_sql, Column,
};
use asuka::table::{Document, Message, SqlValue, SqliteVectorStoreTable};
use asuka::types::{ChannelType, Source};

#[test]
fn identifiers_are_lower_snake_case() {
    assert!(check_identifier("messages"));
    assert!(check_identifier("source_id2"));
    assert!(!check_identifier(""));
    assert!(!check_identifier("Messages"));
    assert!(!check_identifier("id; DROP TABLE x"));
}

#[test]
fn document_table_statement() {
    let sql = create_table_sql(&Document::name(), &Document::schema());
    assert_eq!(
        sql,
        "CREATE TABLE IF NOT EXISTS documents (\n    id TEXT PRIMARY KEY,\n    source_id TEXT,\n    content TEXT,\n    created_at TIMESTAMP DEFAULT CURRENT_TIMESTAMP\n)"
    );
}

#[test]
fn message_indexes_cover_id_and_indexed_columns() {
    let sql = create_indexes_sql(&Message::name(), &Message::schema());
    assert_eq!(
        sql,
        vec![
            "CREATE INDEX IF NOT EXISTS idx_messages_id ON messages(id)".to_string(),
            "CREATE INDEX IF NOT EXISTS idx_messages_source_id ON messages(source_id)".to_string(),
            "CREATE INDEX IF NOT EXISTS idx_messages_channel_id ON messages(channel_id)".to_string(),
            "CREATE INDEX IF NOT EXISTS idx_messages_account_id ON messages(account_id)".to_string(),
        ]
    );
}

#[test]
fn embedding_table_has_model_width() {
    assert_eq!(
        create_embeddings_sql("documents", 1536),
        "CREATE VIRTUAL TABLE IF NOT EXISTS documents_embeddings USING vec0(embedding float[1536])"
    );
    assert_eq!(
        create_embeddings_sql("t", 3),
        "CREATE VIRTUAL TABLE IF NOT EXISTS t_embeddings USING vec0(embedding float[3])"
    );
}

#[test]
fn write_statements() {
    let names = vec!["id".to_string(), "content".to_string(), "created_at".to_string()];
    assert_eq!(
        upsert_sql("documents", &names),
        "INSERT OR REPLACE INTO documents (id, content, created_at) VALUES (?1, ?2, ?3)"
    );
    assert_eq!(
        insert_embedding_sql("documents"),
        "INSERT INTO documents_embeddings (rowid, embedding) VALUES (?1, ?2)"
    );
    assert_eq!(
        delete_embeddings_sql("documents"),
        "DELETE FROM documents_embeddings WHERE rowid IN (SELECT rowid FROM documents WHERE id = ?1)"
    );
}

#[test]
fn knn_statement_joins_on_row_id() {
    let names = vec!["id".to_string(), "content".to_string()];
    assert_eq!(
        knn_sql("documents", &names),
        "SELECT d.id, d.content, e.distance FROM documents_embeddings e JOIN documents d ON e.rowid = d.rowid WHERE e.embedding MATCH ?1 AND k = ?2 ORDER BY e.distance"
    );
}

#[test]
fn column_builder_marks_index() {
    let c = Column::new("a", "TEXT").indexed();
    assert_eq!(c.name, "a");
    assert_eq!(c.col_type, "TEXT");
    assert!(c.indexed);
}

fn sample_message() -> Message {
    Message {
        id: "m1".to_string(),
        source: Source::Discord,
        source_id: "u1".to_string(),
        channel_type: ChannelType::Text,
        channel_id: "c1".to_string(),
        account_id: "a1".to_string(),
        role: "user".to_string(),
        content: "hello".to_string(),
        created_at: "2024-01-01T00:00:00+00:00".to_string(),
    }
}

#[test]
fn message_values_follow_schema() {
    let m = sample_message();
    let values = m.column_values();
    let schema = Message::schema();
    assert_eq!(values.len(), schema.len());
    for (v, c) in values.iter().zip(schema.iter()) {
        assert_eq!(v.0, c.name);
    }
    assert_eq!(values[0], ("id".to_string(), "m1".to_string()));
    assert_eq!(values[1].1, "discord");
    assert_eq!(values[3].1, "text");
}

#[test]
fn message_reads_back_from_its_values() {
    let m = sample_message();
    let row: Vec<SqlValue> = m.column_values().into_iter().map(|(_, v)| SqlValue::Text(v)).collect();
    let back = Message::from_row(&row).expect("row reads back");
    assert_eq!(back.id, m.id);
    assert_eq!(back.source, m.source);
    assert_eq!(back.channel_type, m.channel_type);
    assert_eq!(back.content, m.content);
    assert_eq!(back.created_at, m.created_at);
    let mut bad = row.clone();
    bad[1] = SqlValue::Text("myspace".to_string());
    assert!(Message::from_row(&bad).is_none());
    let mut short = row;
    short.pop();
    assert!(Message::from_row(&short).is_none());
}

#[test]
fn document_reads_back_from_its_values() {
    let d = Document {
        id: "d1".to_string(),
        source_id: "s".to_string(),
        content: "body".to_string(),
        created_at: "2024-01-01T00:00:00+00:00".to_string(),
    };
    let row: Vec<SqlValue> = d.column_values().into_iter().map(|(_, v)| SqlValue::Text(v)).collect();
    let back = Document::from_row(&row).expect("row reads back");
    assert_eq!(back.id, "d1");
    assert_eq!(back.content, "body");
    assert!(Document::from_row(&vec![SqlValue::Integer(1)]).is_none());
}

#[test]
fn message_reads_back_names_in_any_case() {
    let m = sample_message();
    let mut row: Vec<SqlValue> = m.column_values().into_iter().map(|(_, v)| SqlValue::Text(v)).collect();
    row[1] = SqlValue::Text("DisCord".to_string());
    row[3] = SqlValue::Text("THREAD".to_string());
    let back = Message::from_row(&row).expect("row reads back");
    assert_eq!(back.source, Source::Discord);
    assert_eq!(back.channel_type, ChannelType::Thread);
}
