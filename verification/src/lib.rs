//! A small HTTP/1.x request-serving engine: request framing, response
//! serialisation, handler routing and worker-pool scheduling.

pub mod agreement;
pub mod error;
pub mod espresso;
pub mod headers;
pub mod number;
pub mod request;
pub mod response;
pub mod text;
pub mod threads;
