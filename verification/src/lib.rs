//! Location matching, path rewriting, target URL construction and HTML
//! injection for a small development proxy server, with the decisions of
//! its command line and of its request handler.

pub mod cli;
pub mod logger;
pub mod matcher;
pub mod pattern;
pub mod proxy;
pub mod rewrite;
pub mod server;
pub mod text;
pub mod types;
