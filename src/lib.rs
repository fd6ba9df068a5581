//! Client-side bookkeeping for a windowing protocol: event queues, entity
//! registries and the decisions taken on protocol events, all verified.
pub mod event_queue;
pub mod output;
pub mod surface;
pub mod cursor;
pub mod keyboard;
pub mod data_device;
pub mod shell;
pub mod pointer;
pub mod locale;
pub mod clipboard;
pub mod seat;
pub mod environment;
pub mod toplevel;
pub mod frame;
