//! The decisions of a local web panel for a library of accounts.
//!
//! A request is read by `httpsrv` and sent on by `router`. A command starts in `api` as a step, and
//! each step names one piece of outside work; `claim`, `settings`, `transfer` and `oauth` say what
//! follows when the work is done, until the command is at its end. `oauth` and `login` lead a login
//! from its begin to a stored account, and `monitor` switches accounts by itself. `events` tells the
//! open pages what happened. `failure` has the words for what goes wrong, and `json`, `percent` and
//! `text` carry the values.
//!
//! Sockets, files, clocks, threads and the account core are outside. What the library takes from
//! outside crates stands in `json`, `text` and `oauth`, each item with what is relied on.

pub mod api;
pub mod claim;
pub mod events;
pub mod failure;
pub mod httpsrv;
pub mod json;
pub mod login;
pub mod monitor;
pub mod oauth;
pub mod percent;
pub mod router;
pub mod settings;
pub mod step;
pub mod text;
pub mod transfer;
