//! Benchmark orchestration for scripts run inside short-lived game-server
//! processes: the wire framing, the connection protocol, the packaging of a
//! request into a loadable archive, and the job lifecycle around one run.
pub mod codec;
pub mod message;
pub mod connection;
pub mod worker;
pub mod archive;
pub mod runtime;

pub use message::{
    CompareRequest, CompareResult, ExecuteResult, InternalRequest, Request, Response,
    ServerConfig, Value, DEFAULT_PORT, HEADER_ID,
};
