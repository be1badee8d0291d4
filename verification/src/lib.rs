//! Tusk: the decisions, parsers and configuration generators of a local PHP
//! development environment (PHP versions, MariaDB, Nginx or Apache, sites),
//! each with its contract. Reading files, running processes and the desktop
//! shell stay outside; they hand this library plain values.

pub mod commands;
pub mod engine;
pub mod text;
