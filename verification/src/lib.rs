//! A shared network configuration model behind a property surface, with one
//! ordered queue of intents for the backend that applies them.
//!
//! Callers read and write the facets of a connection through the adapters of
//! `interfaces`. A write needs the connection and the queue exclusively, as
//! `&mut`: who holds both has the lock. It validates, changes the connection
//! in place and queues a snapshot of it. The backend takes the intents from
//! the queue, oldest first.
//!
//! - `text`: digits, numerals and field splitting.
//! - `address`, `ipv6`: addresses of both families and their texts.
//! - `types`: device types, methods, modes and protocols with their words.
//! - `model`: devices, connections and their parts.
//! - `ip`: the fields of an IP configuration as text.
//! - `action`: intents and their queue.
//! - `backend`: handing the queue over to the backend's channel.
//! - `registry`: object paths of devices and connections.
//! - `interfaces`: the adapters.
//! - `progress`: what a presenter is told about a running operation.
//! - `error`: failures.
pub mod action;
pub mod address;
pub mod backend;
pub mod error;
pub mod interfaces;
pub mod ip;
pub mod ipv6;
pub mod model;
pub mod progress;
pub mod registry;
pub mod text;
pub mod types;
