//! A broker that lets many short-lived clients share one language-server
//! session: message framing, JSON-RPC classification, request/response
//! correlation and the per-connection protocol, with machine-checked contracts.

pub mod app;
pub mod codec;
pub mod decimal;
pub mod document;
pub mod json;
pub mod lsp;
pub mod lsp_client;
pub mod lsp_messages;
pub mod lsp_server;
pub mod mame;
pub mod proxy_client;
pub mod proxy_server;
pub mod session;
pub mod state;
pub mod subcommand_act;
pub mod subcommand_completion;
pub mod subcommand_definition;
pub mod subcommand_find_def;
pub mod subcommand_hover;
pub mod subcommand_initialize;
pub mod subcommand_rename;
pub mod target;
pub mod text;
