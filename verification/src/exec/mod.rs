//! Execution of logical plans.
pub mod aggregate;
pub mod aggregate_laws;
pub mod arrange;
pub mod arrange_laws;
pub mod assign;
pub mod call;
pub mod change;
pub mod expand;
pub mod flow;
pub mod flow_laws;
pub mod group;
pub mod group_laws;
pub mod inner;
pub mod inner_laws;
pub mod join;
pub mod join_laws;
pub mod laws;
pub mod lookup_laws;
pub mod match_laws;
pub mod merge;
pub mod merge_laws;
pub mod merge_lone;
pub mod merge_rel;
pub mod merge_run;
pub mod merge_set;
pub mod path;
pub mod project;
pub mod pull;
pub mod query;
pub mod query_laws;
pub mod read;
pub mod run;
pub mod sort_laws;
pub mod step_laws;
pub mod write_laws;
pub mod write_run;
