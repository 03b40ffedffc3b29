//! Data access for code snippets and their categories: the record types and
//! their row mapping, the resolution of a create request's category reference,
//! and a relational store held in memory whose operations are specified over
//! a model of its two tables (`store::StoreModel`). The laws that relate the
//! operations are proved in `laws`.

pub mod datatypes;
pub mod error;
pub mod laws;
pub mod resolver;
pub mod store;
