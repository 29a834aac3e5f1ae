//! Smart-house management library: a relational store of houses, rooms and
//! devices with foreign-key integrity, a report generator over named
//! entities, the request/response rules of the HTTP surface, and the
//! decision core of the desktop client.

pub mod gui;
pub mod handlers;
pub mod ids;
pub mod laws;
pub mod models;
pub mod report_generator;
pub mod store;
