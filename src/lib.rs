//! A fixed-size task dispatch pool and the request handling that feeds it.
//!
//! `pool` holds the dispatch protocol: one FIFO queue of messages shared by a
//! fixed set of workers, and the shutdown handshake that stops every worker
//! once the work queued before it has been handed out and finished.
//! `http` holds the request routing and response framing of the server that
//! submits one job per connection.

mod http;
mod pool;

pub use http::{
    build_response, decimal, delay_seconds, page_file, response_for, route_line, route_request,
    split_words, status_line, Route,
};
pub use pool::{
    lemma_each_message_taken_once, lemma_shutdown_completes, lemma_shutdown_loses_no_job,
    valid_size, Message, WorkerPool, WorkerState, MAX_WORKERS,
};
