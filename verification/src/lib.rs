//! A reverse proxy core that encodes each proxied origin into a DNS label
//! under a configured public host: the URL codec, origin parser, header
//! hygiene rules, HTML link rewriting policy, and WebSocket frame relay
//! decisions, all with verified contracts.

pub mod api;
pub mod codec;
pub mod error;
pub mod options;
pub mod forward;
pub mod rewrite;
pub mod state;
pub mod text;
