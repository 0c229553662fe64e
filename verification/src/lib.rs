//! A viewer for the logs of several supervised processes, with what the
//! node around it needs: bounded line buffers, filters on level and text,
//! scroll and tail views, the viewer's key bindings, the plan for starting a
//! command, log lines, requests, node addresses, and the record store.

pub mod ansi;
pub mod filter;
pub mod level;
pub mod logging;
pub mod ping;
pub mod records;
pub mod request;
pub mod spawn;
pub mod store;
pub mod text;
pub mod types;
pub mod uri;
pub mod view;
pub mod viewer;
pub mod words;
