//! Routing of AI work to private workers that dial out over a WebSocket.

pub mod api;
pub mod auth;
pub mod auth_laws;
pub mod event_laws;
pub mod ids;
pub mod json;
pub mod json_laws;
pub mod key_laws;
pub mod laws;
pub mod protocol;
pub mod reply_laws;
pub mod request_laws;
pub mod routing_laws;
pub mod search;
pub mod socket;
pub mod socket_laws;
pub mod state;
pub mod stream;
pub mod text;
pub mod text_laws;
pub mod worker;
pub mod worker_laws;
pub mod workers;
