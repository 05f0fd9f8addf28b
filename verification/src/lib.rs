//! The core of a social blogging backend: accounts, follows, articles and
//! tags held in relational tables, with every operation carrying a contract
//! over the tables' mathematical views.

pub mod api;
pub mod article;
pub mod credential;
pub mod error;
pub mod follow;
pub mod grouping;
pub mod outside;
pub mod seqs;
pub mod slug;
pub mod store;
pub mod text;
pub mod user;
