//! The verified core of a small shop backend.
//!
//! The shop keeps a catalog of products and takes orders for them. Creating
//! an order is one unit of work: every requested line is checked against
//! the stock of its product under a lock, priced in exact decimals, and
//! taken from the stock; then the order and its lines are stored with a
//! snapshot of each product's name and price. Either all of this happens,
//! or nothing does.
//!
//! - [`money`] holds the decimal amounts; the arithmetic is `rust_decimal`'s.
//! - [`models`], [`error`] and [`status`] hold the records, the failures and
//!   the order status register.
//! - [`assembler`] prices the lines of a request, and [`workflow`] is the
//!   protocol between the decisions of an order creation and the storage.
//! - [`catalog`] and [`tables`] describe the storage as mathematics;
//!   [`store`] is such a storage, held in memory, and [`transaction`] shows
//!   that the protocol run against it is the unit of work it should be.
//! - [`laws`] states what every unit of work guarantees, and [`sessions`]
//!   what holds when several of them run side by side.
//! - [`auth`], [`products`], [`listing`], [`config`], [`ids`] and [`text`]
//!   hold the rules around sign-in, catalog administration, listings and
//!   configuration, and what they need of identifiers and text.

pub mod assembler;
pub mod auth;
pub mod catalog;
pub mod config;
pub mod error;
pub mod ids;
pub mod laws;
pub mod listing;
pub mod models;
pub mod money;
pub mod products;
pub mod sessions;
pub mod status;
pub mod store;
pub mod tables;
pub mod text;
pub mod transaction;
pub mod workflow;
