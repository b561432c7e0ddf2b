pub mod catalog;
pub mod concurrent_hash_map;
pub mod data_ingestor;
pub mod grouping;
pub mod ingest;
pub mod job_model;
pub mod json_text;
pub mod logger;
pub mod pool_size;
pub mod priority;
pub mod request_type;
pub mod routes;
pub mod scoring;
pub mod ranking;
pub mod render;
pub mod text;
pub mod thread_pool;
