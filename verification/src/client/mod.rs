//! The REST client: host prefixes, request URLs, error replies and pagination.

pub mod host_prefixes;
pub mod outside;
pub mod rest;
