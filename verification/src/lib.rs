//! A package index for Python: the rules behind its pages, its uploads and its mirror.
//!
//! The packages lie as files in one directory. [`storage`] reads their names, [`routes`] says what the
//! index answers, [`extractors`] and [`auth`] say whom it answers, and [`pypi_push`], [`warehouse`],
//! [`publish_rabbit`] and [`push_consumer`] pass chosen packages on to a public index. The modules
//! whose names end in `_laws` hold what is true of these parts together.
//!
//! The library reads neither files nor the network: what comes from there is an argument, and what goes
//! there is a result. It reads the clock in one place, where [`jwt`] has a token's expiry checked.
pub mod archives;
pub mod auth;
pub mod core_metadata;
pub mod digests;
pub mod dist_laws;
pub mod encodings;
pub mod extractors;
pub mod form_laws;
pub mod json;
pub mod jwt;
pub mod metadata_laws;
pub mod name_laws;
pub mod order;
pub mod order_laws;
pub mod paths;
pub mod patterns;
pub mod publish_rabbit;
pub mod push_consumer;
pub mod pypi_push;
pub mod route_laws;
pub mod routes;
pub mod session_laws;
pub mod storage;
pub mod storage_laws;
pub mod text;
pub mod text_laws;
pub mod uploads;
pub mod warehouse;
pub mod warehouse_laws;
