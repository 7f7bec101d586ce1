//! A scraping and notification service for classified-ad listings.
//!
//! Users register subscriptions (a URL plus polling configuration) over chat
//! channels; the service periodically fetches each URL, parses the page into
//! listings, and pushes notifications for newly appeared listings to the
//! subscription's channels. The catalog of subscriptions and the per-
//! subscription watermark of the newest listing already seen both survive
//! restarts.
//!
//! This crate holds the verified core: the data model, the tolerant page
//! parser, the subscription and runtime-state stores, the per-tick
//! scrape-cycle planner, the command handler, and the notification
//! formatting. Transports, HTTP fetching and file I/O live outside it.

pub mod calendar;
pub mod clock;
pub mod config;
pub mod commands;
pub mod dates;
pub mod integrations;
pub mod models;
pub mod monitor;
pub mod naming;
pub mod notify;
pub mod numbers;
pub mod parser;
pub mod scrape;
pub mod store;
pub mod text;
