//! A small verified library grown out of a collection of Rust exercises.
//!
//! The centerpiece is a fixed-size worker pool: a task queue with an explicit
//! closure signal (`task_queue`) and the pool's coordination state machine
//! (`pool`), whose submission, shutdown and drain protocol is fully verified.
//! Around it stand the other exercises of the collection: plain data types
//! (`company`, `shapes`), a primality-testing library (`math_utils`) and the
//! logic of a snake game in two variants (`board`/`snake` and `snake_simple`).

pub mod board;
pub mod company;
pub mod math_utils;
pub mod pool;
pub mod shapes;
pub mod snake;
pub mod snake_simple;
pub mod task_queue;
