//! Indexing of a source tree into a graph-and-vector store: the decisions of
//! the ingestion and update pipeline, stated and proved over plain values.
//!
//! The modules follow the pipeline: a file's extension selects a grammar
//! (`language`), its syntax tree is detached from the source buffer
//! (`syntax`), the index-type filter decides which nodes become entities
//! (`config`, `entities`), their text is cut into chunks (`chunker`), and
//! the planning functions of `ingestion`, `updater` and `deleter` turn all
//! of this into the requests that a driver sends to the store (`store`) and
//! read its answers (`replies`). The chunks travel to the embedding service
//! as jobs (`embedding`), which the counters of `progress` follow.
#![allow(non_camel_case_types)]

pub mod chunker;
pub mod cli;
pub mod config;
pub mod deleter;
pub mod embedding;
pub mod entities;
pub mod error;
pub mod ingestion;
pub mod json;
pub mod language;
pub mod limits;
pub mod progress;
pub mod replies;
pub mod store;
pub mod syntax;
pub mod text;
pub mod theorems;
pub mod update_theorems;
pub mod updater;
