// A confirmation guard for cluster-management command-line tools: it decides
// whether an operator has to confirm a command before it reaches a cluster,
// and remembers recent confirmations per shell session.

pub mod classify;
pub mod clock;
pub mod config;
pub mod confirmation;
pub mod context_map;
pub mod dispatch;
pub mod session;
pub mod text;
