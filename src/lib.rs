//! Core of a multi-tenant account service: signed session tokens, an
//! in-memory model of the relational store (accounts, realms, roles, grants,
//! channel bridges and bots), and the business rules of the account, realm
//! and bot managers, with the authorization resolver that guards them.
use vstd::prelude::*;

pub mod accounts;
pub mod authz;
pub mod bots;
pub mod error;
pub mod ids;
pub mod model;
pub mod realms;
pub mod timestamp;
pub mod token;
