pub mod adapter;
pub mod api;
pub mod attrs;
pub mod builder;
pub mod codec;
pub mod connection;
pub mod cookies;
pub mod dispatch;
pub mod error;
pub mod fish_sign;
pub mod echo;
pub mod event;
pub mod json;
pub mod message;
pub mod plugin;
pub mod protocol;
pub mod registry;
pub mod routing;
pub mod rule;
pub mod sdk;
pub mod sign;
pub mod telemetry;
pub mod text;
