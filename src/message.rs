//! The values exchanged between a client and the server: the per-session
//! configuration, requests, results and responses.
use vstd::prelude::*;
use vstd::string::StringExecFns;

verus! {

/// The 16 bytes that both ends exchange first on a new connection.
pub const HEADER_ID: [u8; 16] = [65u8, 82, 77, 65, 66, 69, 78, 67, 72, 45, 86, 69, 82, 48, 49, 48];

/// The port the server listens on unless told otherwise.
pub const DEFAULT_PORT: u16 = 7562;

/// The protocol identifier as a sequence of bytes.
pub open spec fn header_id() -> Seq<u8> {
    seq![65u8, 82, 77, 65, 66, 69, 78, 67, 72, 45, 86, 69, 82, 48, 49, 48]
}

/// The protocol identifier, ready to be written to a stream.
pub fn header_id_bytes() -> (r: Vec<u8>)
    ensures
        r@ == header_id(),
{
    let r = vec![65u8, 82, 77, 65, 66, 69, 78, 67, 72, 45, 86, 69, 82, 48, 49, 48];
    assert(r@ =~= header_id());
    r
}

/// Which server binary to run, and from which distribution channel.
/// Sent once per connection and kept for the whole session.
#[derive(Debug)]
pub struct ServerConfig {
    pub binary: String,
    pub branch: String,
    pub branch_password: String,
}

impl ServerConfig {
    /// The stock server binary on the public channel, without a password.
    pub fn default() -> (r: ServerConfig)
        ensures
            r.binary@ == "arma3server_x64"@,
            r.branch@ == "public"@,
            r.branch_password@ == Seq::<char>::empty(),
    {
        ServerConfig {
            binary: String::from_str("arma3server_x64"),
            branch: String::from_str("public"),
            branch_password: String::new(),
        }
    }

    /// A field-by-field copy.
    pub fn duplicate(&self) -> (r: ServerConfig)
        ensures
            r == *self,
    {
        ServerConfig {
            binary: self.binary.clone(),
            branch: self.branch.clone(),
            branch_password: self.branch_password.clone(),
        }
    }
}

/// One script of a comparison.
#[derive(Debug)]
pub struct CompareRequest {
    /// Identifies the script within its request; echoed on its result.
    pub id: u16,
    /// Whether `content` is compiled bytecode rather than source text.
    pub sqfc: bool,
    pub content: Vec<u8>,
}

/// A benchmark request.
#[derive(Debug)]
pub enum Request {
    /// Run one script.
    Execute(String),
    /// Run several scripts one after the other.
    Compare(Vec<CompareRequest>),
}

/// A return value of the scripting language. A number is held as the bit
/// pattern of an IEEE-754 double.
#[derive(Debug)]
pub enum Value {
    Null,
    Number(u64),
    Array(Vec<Value>),
    Boolean(bool),
    String(String),
    /// A value the runtime could not classify, as raw text.
    Unknown(String),
}

/// The timing and return value of one script. `time_bits` is the elapsed
/// milliseconds as the bit pattern of an IEEE-754 double.
#[derive(Debug)]
pub struct ExecuteResult {
    pub time_bits: u64,
    pub iter: u32,
    pub ret: Value,
}

/// The timing and return value of one script of a comparison, tagged with
/// the id of the script it belongs to.
#[derive(Debug)]
pub struct CompareResult {
    pub id: u16,
    pub time_bits: u64,
    pub iter: u32,
    pub ret: Value,
}

/// The answer to one request.
#[derive(Debug)]
pub enum Response {
    Error(String),
    Execute(Result<ExecuteResult, String>),
    Compare(Result<Vec<CompareResult>, String>),
}

/// A request together with the configuration of the session it came from.
#[derive(Debug)]
pub struct InternalRequest {
    pub config: ServerConfig,
    pub request: Request,
}

/// What a client makes of the response to an execute request.
pub fn execute_outcome(response: Response) -> (r: Result<ExecuteResult, String>)
    ensures
        match response {
            Response::Execute(res) => r == res,
            Response::Error(e) => r == Err::<ExecuteResult, String>(e),
            Response::Compare(_) => r is Err && r->Err_0@ == "Invalid response"@,
        },
{
    match response {
        Response::Execute(res) => res,
        Response::Error(e) => Err(e),
        Response::Compare(_) => Err(String::from_str("Invalid response")),
    }
}

/// What a client makes of the response to a compare request.
pub fn compare_outcome(response: Response) -> (r: Result<Vec<CompareResult>, String>)
    ensures
        match response {
            Response::Compare(res) => r == res,
            Response::Error(e) => r == Err::<Vec<CompareResult>, String>(e),
            Response::Execute(_) => r is Err && r->Err_0@ == "Invalid response"@,
        },
{
    match response {
        Response::Compare(res) => res,
        Response::Error(e) => Err(e),
        Response::Execute(_) => Err(String::from_str("Invalid response")),
    }
}

} // verus!
