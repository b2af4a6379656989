//! Verified core of a Minecraft server manager: server models, launch planning,
//! download targets, mirror URLs, command-line parsing and the server service.

pub mod text;
pub mod error;
pub mod model;
pub mod mirror;
pub mod paths;
pub mod download;
pub mod launch;
pub mod forge;
pub mod registry;
pub mod service;
pub mod inmemory;
pub mod numbers;
pub mod cli_args;
pub mod cli_parse;
pub mod game;
pub mod agent;
pub mod web;
pub mod saves;
pub mod local;
pub mod store;
pub mod http;
pub mod inventory;
pub mod provision;
pub mod versions;
pub mod quoting;
pub mod rcon;
pub mod payload;
