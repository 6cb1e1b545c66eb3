//! Upstream clients: the retry discipline they share and the per-source
//! request shapes.

pub mod astronomy_client;
pub mod http;
pub mod iss_client;
pub mod jwst_client;
pub mod nasa_client;
pub mod osdr_client;
pub mod retry;
pub mod spacex_client;
