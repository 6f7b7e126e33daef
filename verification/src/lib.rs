//! A sharded ring buffer: a bounded FIFO store split into shards, each a
//! small ring buffer of its own.
pub mod acquire;
pub mod assigner;
pub mod cs;
pub mod guards;
pub mod inner;
pub mod layout;
pub mod lf;
pub mod mlf;
pub mod notify;
pub mod outcome;
pub mod shard_policies;
pub mod shard_set;
pub mod spawn_plan;
pub mod srb;
pub mod task_locals;
pub mod task_node;
