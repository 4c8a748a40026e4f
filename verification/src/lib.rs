//! A Cypher front end and query engine core.
pub mod assoc;
pub mod ast;
pub mod ast_copy;
pub mod ast_model;
pub mod binding;
pub mod binding_laws;
pub mod exec;
pub mod float;
pub mod iter;
pub mod iter_slot;
pub mod order;
pub mod order_laws;
pub mod parse_cache;
pub mod parser;
pub mod plan;
pub mod plan_laws;
pub mod queue;
pub mod record;
pub mod row_laws;
pub mod slot_groups;
pub mod slot_laws;
pub mod slot_plan_laws;
pub mod slot_sight;
pub mod source;
pub mod text;
pub mod types;
pub mod value;
