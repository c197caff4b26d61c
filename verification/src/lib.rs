//! Telebots: the verified core of a Telegram bot framework.

pub mod blocks;
pub mod bot;
pub mod builtin;
pub mod case;
pub mod cloudflare;
pub mod cmc;
pub mod coingecko;
pub mod command;
pub mod config;
pub mod dispatch;
pub mod inline;
pub mod json;
pub mod markup;
pub mod metrics;
pub mod outside;
pub mod reply;
pub mod request;
pub mod scheduler;
pub mod text;
pub mod time;
pub mod width;

