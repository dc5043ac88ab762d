use codebase_index::embedding::{
    embed_entity, embedding_answer, embedding_jobs, embedding_values, EmbeddingError,
    EmbeddingJob, EmbeddingRequest, API_KEY_HEADER, API_KEY_VARIABLE, EMBEDDING_MODEL,
    EMBEDDING_TASK, EMBEDDING_URL, EMBED_ENDPOINT,
};
use codebase_index::entities::{CodeEntity, PlannedEntity};
use codebase_index::error::IndexError;
use codebase_index::limits::{
    CHANNEL_CAPACITY, EMBEDDING_IDLE_CONNECTIONS, EMBEDDING_REQUESTS_PER_MINUTE,
    EMBEDDING_TIMEOUT_SECONDS, MAX_CONCURRENT_EMBEDDINGS, STORE_IDLE_CONNECTIONS,
    STORE_REQUESTS_PER_SECOND, STORE_TIMEOUT_SECONDS, WAIT_POLL_MILLIS,
};
use codebase_index::progress::{JobStep, Progress};
use codebase_index::json::Json;

fn job(chunk: &str) -> EmbeddingJob {
    EmbeddingJob { chunk: chunk.to_string(), entity_id: "e".to_string(), port: 6969 }
}

fn planned(kind: &str, chunks: &[&str], children: Vec<PlannedEntity>) -> PlannedEntity {
    PlannedEntity {
        entity: CodeEntity {
            entity_type: kind.to_string(),
            start_byte: 0,
            end_byte: 1,
            order: 1,
            text: "x".to_string(),
        },
        is_super: !chunks.is_empty(),
        chunks: chunks.iter().map(|c| c.to_string()).collect(),
        children,
    }
}

#[test]
fn the_limits_of_the_two_clients() {
    assert_eq!(CHANNEL_CAPACITY, 1000);
    assert_eq!(MAX_CONCURRENT_EMBEDDINGS, 100);
    assert_eq!(WAIT_POLL_MILLIS, 100);
    assert_eq!(STORE_REQUESTS_PER_SECOND, 100);
    assert_eq!(EMBEDDING_REQUESTS_PER_MINUTE, 4000);
    assert_eq!(STORE_TIMEOUT_SECONDS, 90);
    assert_eq!(EMBEDDING_TIMEOUT_SECONDS, 30);
    assert_eq!(STORE_IDLE_CONNECTIONS, 500);
    assert_eq!(EMBEDDING_IDLE_CONNECTIONS, 3000);
}

#[test]
fn each_chunk_that_is_not_empty_gets_a_job() {
    let chunks = vec!["one".to_string(), String::new(), "two".to_string()];
    let jobs = embedding_jobs(&chunks, "entity-1", 7000);
    assert_eq!(
        jobs,
        vec![
            EmbeddingJob { chunk: "one".to_string(), entity_id: "entity-1".to_string(), port: 7000 },
            EmbeddingJob { chunk: "two".to_string(), entity_id: "entity-1".to_string(), port: 7000 },
        ]
    );
    assert_eq!(embedding_jobs(&vec![], "entity-1", 7000), vec![]);
    assert_eq!(embedding_jobs(&vec![String::new()], "entity-1", 7000), vec![]);
}

#[test]
fn a_created_entity_hands_out_its_jobs_and_its_children() {
    let child = planned("child", &[], vec![]);
    let parent = planned("parent", &["a", "b"], vec![planned("child", &[], vec![])]);
    let reply = Json::parse(r#"{"entity": {"id": "entity-9"}}"#).expect("valid JSON");
    assert_eq!(parent.jobs("entity-9", 1).len(), 2);
    let created = parent.created(&reply, 6969).expect("a named entity");
    assert_eq!(created.entity_id, "entity-9");
    assert_eq!(
        created.jobs,
        vec![
            EmbeddingJob { chunk: "a".to_string(), entity_id: "entity-9".to_string(), port: 6969 },
            EmbeddingJob { chunk: "b".to_string(), entity_id: "entity-9".to_string(), port: 6969 },
        ]
    );
    assert_eq!(created.children, vec![child]);
}

#[test]
fn an_entity_that_the_store_does_not_name_is_given_up() {
    let parent = planned("parent", &["a"], vec![planned("child", &[], vec![])]);
    let reply = Json::parse(r#"{"error": "no"}"#).expect("valid JSON");
    assert_eq!(parent.created(&reply, 6969), Err(IndexError::EntityIdNotFound));
}

#[test]
fn the_counters_follow_a_job_from_the_queue_to_its_end() {
    let mut progress = Progress::new();
    assert_eq!(progress, Progress { total_chunks: 0, pending: 0, completed: 0 });
    assert!(progress.wait_finished(false));
    assert!(progress.enqueue(&job("a")));
    assert!(progress.enqueue(&job("b")));
    assert_eq!(progress, Progress { total_chunks: 2, pending: 0, completed: 0 });
    assert!(!progress.wait_finished(false));
    assert!(progress.accept(&job("a")));
    assert_eq!(progress, Progress { total_chunks: 2, pending: 1, completed: 0 });
    assert_eq!(progress.in_flight(), 1);
    progress.complete();
    assert_eq!(progress, Progress { total_chunks: 2, pending: 1, completed: 1 });
    assert!(!progress.wait_finished(false));
    assert!(progress.accept(&job("b")));
    progress.complete();
    assert_eq!(progress, Progress { total_chunks: 2, pending: 2, completed: 2 });
    assert_eq!(progress.in_flight(), 0);
    assert!(progress.wait_finished(false));
    assert!(!progress.wait_finished(true));
    progress.reset();
    assert_eq!(progress, Progress::new());
}

#[test]
fn an_empty_chunk_is_neither_enqueued_nor_embedded() {
    let mut progress = Progress::new();
    assert!(!progress.enqueue(&job("")));
    assert_eq!(progress, Progress::new());
    assert!(!progress.accept(&job("")));
    assert_eq!(progress, Progress::new());
    assert!(progress.enqueue(&job(" ")));
    assert_eq!(progress.total_chunks, 1);
}

#[test]
fn the_wait_goes_on_while_a_job_is_in_the_queue_or_in_flight() {
    let queued = Progress { total_chunks: 3, pending: 2, completed: 2 };
    assert!(!queued.wait_finished(false));
    let flying = Progress { total_chunks: 3, pending: 3, completed: 2 };
    assert!(!flying.wait_finished(false));
    let done = Progress { total_chunks: 3, pending: 3, completed: 3 };
    assert!(done.wait_finished(false));
    assert!(!done.wait_finished(true));
}

#[test]
fn an_embedding_is_read_as_the_numbers_at_embedding_values() {
    let reply = Json::parse(r#"{"embedding": {"values": [0.5, -1, 2e-3, 12345678901234567890]}}"#)
        .expect("valid JSON");
    let values = embedding_values(&reply).expect("an embedding");
    let numbers: Vec<f64> = values.iter().map(|v| v.parse::<f64>().unwrap()).collect();
    assert_eq!(numbers, vec![0.5, -1.0, 0.002, 12345678901234567890.0]);
    assert_eq!(values[0], "0.5");
    assert_eq!(values[1], "-1");
    let empty = Json::parse(r#"{"embedding": {"values": []}}"#).expect("valid JSON");
    assert_eq!(embedding_values(&empty), Ok(vec![]));
}

#[test]
fn a_reply_of_another_shape_holds_no_embedding() {
    let shape = |text: &str| embedding_values(&Json::parse(text).expect("valid JSON"));
    assert_eq!(shape("[]"), Err(EmbeddingError::NotAnObject));
    assert_eq!(shape("\"x\""), Err(EmbeddingError::NotAnObject));
    assert_eq!(shape("{}"), Err(EmbeddingError::MissingEmbedding));
    assert_eq!(shape(r#"{"error": {"code": 429}}"#), Err(EmbeddingError::MissingEmbedding));
    assert_eq!(shape(r#"{"embedding": {}}"#), Err(EmbeddingError::MissingValues));
    assert_eq!(shape(r#"{"embedding": {"values": 3}}"#), Err(EmbeddingError::MissingValues));
    assert_eq!(shape(r#"{"embedding": [1, 2]}"#), Err(EmbeddingError::MissingValues));
    assert_eq!(
        shape(r#"{"embedding": {"values": ["1"]}}"#),
        Err(EmbeddingError::NonNumeric(0))
    );
    assert_eq!(
        shape(r#"{"embedding": {"values": [1, 2, null, "x"]}}"#),
        Err(EmbeddingError::NonNumeric(2))
    );
}

#[test]
fn the_embedding_service_is_asked_for_semantic_similarity() {
    assert_eq!(
        EMBEDDING_URL,
        "https://generativelanguage.googleapis.com/v1beta/models/gemini-embedding-001:embedContent"
    );
    assert_eq!(EMBEDDING_MODEL, "models/gemini-embedding-001");
    assert_eq!(EMBEDDING_TASK, "SEMANTIC_SIMILARITY");
    assert_eq!(API_KEY_HEADER, "x-goog-api-key");
    assert_eq!(API_KEY_VARIABLE, "GEMINI_API_KEY");
    assert_eq!(EMBED_ENDPOINT, "embedSuperEntity");
}

#[test]
fn a_blank_text_is_refused_before_anything_is_sent() {
    for text in ["", " ", "\n\t ", "\u{a0}\u{3000}"] {
        assert_eq!(embed_entity(text, Some("key")), Err(EmbeddingError::BlankText));
        assert_eq!(embed_entity(text, None), Err(EmbeddingError::BlankText));
    }
}

#[test]
fn a_text_is_refused_where_the_key_is_not_set() {
    assert_eq!(embed_entity("def f(): pass", None), Err(EmbeddingError::MissingApiKey));
    assert_eq!(embed_entity(" x ", None), Err(EmbeddingError::MissingApiKey));
}

#[test]
fn a_text_is_sent_as_it_comes_with_the_key() {
    assert_eq!(
        embed_entity(" def f(): pass\n", Some("secret")),
        Ok(EmbeddingRequest { text: " def f(): pass\n".to_string(), api_key: "secret".to_string() })
    );
    assert_eq!(
        embed_entity("x", Some("")),
        Ok(EmbeddingRequest { text: "x".to_string(), api_key: String::new() })
    );
}

#[test]
fn the_answer_of_the_service_is_read_from_status_and_body() {
    let values = embedding_answer(200, r#"{"embedding": {"values": [0.25, 1, -3e2]}}"#)
        .expect("an embedding");
    let numbers: Vec<f64> = values.iter().map(|v| v.parse::<f64>().unwrap()).collect();
    assert_eq!(numbers, vec![0.25, 1.0, -300.0]);
    assert_eq!(embedding_answer(200, r#"{"embedding": {"values": []}}"#), Ok(vec![]));
    let good = r#"{"embedding": {"values": [1]}}"#;
    assert_eq!(embedding_answer(429, good), Err(EmbeddingError::Status(429)));
    assert_eq!(embedding_answer(199, good), Err(EmbeddingError::Status(199)));
    assert_eq!(embedding_answer(300, "quota"), Err(EmbeddingError::Status(300)));
    assert_eq!(embedding_answer(200, "quota"), Err(EmbeddingError::NotJson));
    assert_eq!(embedding_answer(200, "[1]"), Err(EmbeddingError::NotAnObject));
    assert_eq!(embedding_answer(200, "{}"), Err(EmbeddingError::MissingEmbedding));
    assert_eq!(embedding_answer(201, r#"{"embedding": 1}"#), Err(EmbeddingError::MissingValues));
    assert_eq!(
        embedding_answer(200, r#"{"embedding": {"values": [1, "2"]}}"#),
        Err(EmbeddingError::NonNumeric(1))
    );
}

#[test]
fn a_job_that_is_taken_up_is_skipped_refused_or_embedded() {
    let mut progress = Progress { total_chunks: 4, pending: 0, completed: 0 };
    assert_eq!(progress.take_up(&job(""), Some("key")), JobStep::Skip);
    assert_eq!(progress, Progress { total_chunks: 4, pending: 0, completed: 0 });
    assert_eq!(
        progress.take_up(&job(" \n"), Some("key")),
        JobStep::Refuse(EmbeddingError::BlankText)
    );
    assert_eq!(progress, Progress { total_chunks: 4, pending: 1, completed: 0 });
    progress.complete();
    assert_eq!(
        progress.take_up(&job("x = 1"), None),
        JobStep::Refuse(EmbeddingError::MissingApiKey)
    );
    assert_eq!(progress, Progress { total_chunks: 4, pending: 2, completed: 1 });
    progress.complete();
    assert_eq!(
        progress.take_up(&job("x = 1"), Some("key")),
        JobStep::Embed(EmbeddingRequest { text: "x = 1".to_string(), api_key: "key".to_string() })
    );
    assert_eq!(progress, Progress { total_chunks: 4, pending: 3, completed: 2 });
}
