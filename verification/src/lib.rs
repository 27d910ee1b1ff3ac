//! A ranking pipeline for an interactive launcher.
//!
//! Entities come from producers, are narrowed by a live query, and are shown in the
//! order of a composed comparator until one is selected and acted on.
//!
//! - [`entity`] holds the entities and their canonical projections.
//! - [`stage`] holds the capabilities of the stages that compute: filters,
//!   comparators, scorers, scopes and mappers. [`combinator`] composes them,
//!   [`closure`] makes them from function values, and [`catalog`] holds those of
//!   the launcher's own entities.
//! - [`pipeline`] registers stages and builds the [`batcher`], which keeps the
//!   buffer sorted while batches arrive; [`ranking`] holds its order and its merge
//!   step. A [`session`] owns a batcher together with its buffer.
//! - Stages that act on the world are driven from outside: sources offer their
//!   entities to the batcher, a generator is asked when its trigger fires
//!   ([`generator`]), and the handlers of the action chain are performed by the
//!   caller in the order that [`dispatch`] decides.
//! - [`fuzzy`] and [`usage`] rank by what an outside matcher and an outside usage
//!   store compute, and [`launcher`] assembles the launcher's own ranking.

pub mod batcher;
pub mod catalog;
pub mod closure;
pub mod combinator;
pub mod dispatch;
pub mod entity;
pub mod error;
pub mod fuzzy;
pub mod generator;
pub mod launcher;
pub mod order;
pub mod pipeline;
pub mod ranking;
pub mod session;
pub mod stage;
pub mod usage;
