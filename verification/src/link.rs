//! The handles and error codes of the native runtime, and the decisions taken on what its
//! calls report.
//!
//! The native runtime reports a failure through a per-thread error code. Each call below is
//! made with that code first reset to [`ERR_OK`]; what the call returned and the code it
//! left are handed to the functions of this module, which decide the result.
use vstd::prelude::*;
use vstd::string::*;

verus! {

/// No error present.
pub const ERR_OK: i32 = 0x00;

/// Memory allocation failure.
pub const ERR_FAILED_MALLOC: i32 = 0x01;

/// `execlp` failed.
pub const ERR_EXECLP: i32 = 0x10;

/// Maximum process limit reached.
pub const ERR_MAX_PROC_REACHED: i32 = 0x11;

/// Failed to terminate a process.
pub const ERR_FAILED_TERMINATE: i32 = 0x12;

/// OpenSSL failed to write data.
pub const ERR_INVALID_WRITE: i32 = 0x20;

/// OpenSSL failed to read data.
pub const ERR_INVALID_READ: i32 = 0x21;

/// Failed to create an OpenSSL context.
pub const ERR_FAILED_CREATE_SSL_CTX: i32 = 0x22;

/// Failed to create an OpenSSL SSL object.
pub const ERR_FAILED_CREATE_SSL: i32 = 0x23;

/// The certificate file (`cert.pem`) could not be found.
pub const ERR_NO_CERT_FILE: i32 = 0x24;

/// The private key file (`key.pem`) could not be found.
pub const ERR_NO_PRIV_FILE: i32 = 0x25;

/// Failed to create a socket.
pub const ERR_NO_SOCKET: i32 = 0x26;

/// Failed to bind a socket.
pub const ERR_FAILED_BIND: i32 = 0x27;

/// Failed to listen on a socket.
pub const ERR_FAILED_LISTEN: i32 = 0x28;

/// Failed to accept a client connection.
pub const ERR_FAILED_ACCEPT: i32 = 0x29;

/// The number of processes that the runtime tracks.
pub const MAX_NUM_PROCS: usize = 128;

/// An error of the native runtime: its code and a description.
#[derive(Debug)]
pub struct Error {
    err: i32,
    string: String,
}

impl View for Error {
    /// The code and the description.
    type V = (i32, Seq<char>);

    closed spec fn view(&self) -> (i32, Seq<char>) {
        (self.err, self.string@)
    }
}

impl Error {
    /// The error code that the runtime reported.
    pub fn code(&self) -> (code: i32)
        ensures
            code == self@.0,
    {
        self.err
    }

    /// The description of the error.
    pub fn message(&self) -> (message: &str)
        ensures
            message@ == self@.1,
    {
        self.string.as_str()
    }
}

/// The runtime's server, an opaque structure that is only ever handled by address.
#[allow(non_camel_case_types)]
pub struct NetworkServer_t {
    _private: [u8; 0],
}

/// A client connection of the runtime, an opaque structure that is only ever handled by
/// address.
#[allow(non_camel_case_types)]
pub struct NetworkClientConnection_t {
    _private: [u8; 0],
}

/// A server of the runtime, by the address of its `NetworkServer_t`; 0 stands for none.
pub struct Server {
    pub server: usize,
}

impl Default for Server {
    fn default() -> (s: Self)
        ensures
            s.server == 0,
    {
        Server { server: 0 }
    }
}

/// A client connection, by the address of its `NetworkClientConnection_t`; 0 stands for
/// none.
pub struct ClientConnection {
    conn: usize,
}

impl View for ClientConnection {
    type V = usize;

    closed spec fn view(&self) -> usize {
        self.conn
    }
}

impl ClientConnection {
    /// The connection at address `conn`.
    pub fn from_handle(conn: usize) -> (c: Self)
        ensures
            c@ == conn,
    {
        ClientConnection { conn }
    }

    /// The address of the connection.
    pub fn handle(&self) -> (conn: usize)
        ensures
            conn == self@,
    {
        self.conn
    }
}

impl Default for ClientConnection {
    fn default() -> (c: Self)
        ensures
            c@ == 0,
    {
        ClientConnection { conn: 0 }
    }
}

/// A node of the runtime, by the address of its `Node_t`.
pub struct Node {
    node: usize,
}

impl View for Node {
    type V = usize;

    closed spec fn view(&self) -> usize {
        self.node
    }
}

impl Node {
    /// The address of the node.
    pub fn handle(&self) -> (node: usize)
        ensures
            node == self@,
    {
        self.node
    }
}

pub open spec fn listen_error_message(code: i32) -> Seq<char> {
    if code == ERR_FAILED_MALLOC {
        "listen_clients failed to allocate memory"@
    } else if code == ERR_FAILED_CREATE_SSL_CTX {
        "listen_clients failed to create an OpenSSL context"@
    } else if code == ERR_NO_CERT_FILE {
        "listen_clients could not find a certificate file"@
    } else if code == ERR_NO_PRIV_FILE {
        "listen_clients could not find a private key file"@
    } else if code == ERR_NO_SOCKET {
        "listen_clients failed to create a socket"@
    } else if code == ERR_FAILED_BIND {
        "listen_clients failed to bind the socket"@
    } else if code == ERR_FAILED_LISTEN {
        "listen_clients failed to listen for clients"@
    } else {
        "listen_clients returned an unknown error"@
    }
}

pub open spec fn run_server_error_message(code: i32) -> Seq<char> {
    if code == ERR_FAILED_ACCEPT {
        "run_server failed to accept a client"@
    } else if code == ERR_FAILED_CREATE_SSL {
        "run_server failed to create an SSL object"@
    } else if code == ERR_FAILED_MALLOC {
        "run_server failed to allocate memory"@
    } else {
        "run_server returned an unknown error"@
    }
}

pub open spec fn read_error_message(code: i32) -> Seq<char> {
    if code == ERR_INVALID_READ {
        "read_server failed to read data from the client"@
    } else if code == ERR_FAILED_MALLOC {
        "read_server failed to allocate memory"@
    } else {
        "read_server returned an unknown error"@
    }
}

pub open spec fn write_error_message() -> Seq<char> {
    "write_server failed to write data to the client"@
}

pub open spec fn create_node_error_message(code: i32) -> Seq<char> {
    if code == ERR_FAILED_MALLOC {
        "create_node failed to allocate memory"@
    } else {
        "create_node returned an unknown error"@
    }
}

pub open spec fn run_node_error_message() -> Seq<char> {
    "run_node failed to allocate a new process"@
}

pub open spec fn reap_error_message(code: i32) -> Seq<char> {
    if code == ERR_FAILED_MALLOC {
        "reap_procs failed to allocate memory"@
    } else {
        "reap_procs returned an unknown error"@
    }
}

/// The error of a failed attempt to create a server, for the code that it left.
pub fn listen_error(code: i32) -> (e: Error)
    ensures
        e@ == (code, listen_error_message(code)),
{
    let string = if code == ERR_FAILED_MALLOC {
        String::from_str("listen_clients failed to allocate memory")
    } else if code == ERR_FAILED_CREATE_SSL_CTX {
        String::from_str("listen_clients failed to create an OpenSSL context")
    } else if code == ERR_NO_CERT_FILE {
        String::from_str("listen_clients could not find a certificate file")
    } else if code == ERR_NO_PRIV_FILE {
        String::from_str("listen_clients could not find a private key file")
    } else if code == ERR_NO_SOCKET {
        String::from_str("listen_clients failed to create a socket")
    } else if code == ERR_FAILED_BIND {
        String::from_str("listen_clients failed to bind the socket")
    } else if code == ERR_FAILED_LISTEN {
        String::from_str("listen_clients failed to listen for clients")
    } else {
        String::from_str("listen_clients returned an unknown error")
    };
    Error { err: code, string }
}

/// The error of a failed start of a server, for the code that it left.
pub fn run_server_error(code: i32) -> (e: Error)
    ensures
        e@ == (code, run_server_error_message(code)),
{
    let string = if code == ERR_FAILED_ACCEPT {
        String::from_str("run_server failed to accept a client")
    } else if code == ERR_FAILED_CREATE_SSL {
        String::from_str("run_server failed to create an SSL object")
    } else if code == ERR_FAILED_MALLOC {
        String::from_str("run_server failed to allocate memory")
    } else {
        String::from_str("run_server returned an unknown error")
    };
    Error { err: code, string }
}

/// The error of a failed read from a client, for the code that it left.
pub fn read_error(code: i32) -> (e: Error)
    ensures
        e@ == (code, read_error_message(code)),
{
    let string = if code == ERR_INVALID_READ {
        String::from_str("read_server failed to read data from the client")
    } else if code == ERR_FAILED_MALLOC {
        String::from_str("read_server failed to allocate memory")
    } else {
        String::from_str("read_server returned an unknown error")
    };
    Error { err: code, string }
}

/// The result of creating a server: `server` is the address that the runtime returned and
/// `code` the error code that it left. A null address is a failure, described by the code.
pub fn new_server_outcome(server: usize, code: i32) -> (res: Result<Server, Error>)
    ensures
        server == 0 ==> (res matches Err(e) && e@ == (code, listen_error_message(code))),
        server != 0 ==> (res matches Ok(s) && s.server == server),
{
    if server == 0 {
        Err(listen_error(code))
    } else {
        Ok(Server { server })
    }
}

/// The result of starting a server: any code other than [`ERR_OK`] is a failure.
pub fn run_server_outcome(code: i32) -> (res: Result<(), Error>)
    ensures
        code == ERR_OK ==> res is Ok,
        code != ERR_OK ==> (res matches Err(e) && e@ == (code, run_server_error_message(code))),
{
    if code != ERR_OK {
        Err(run_server_error(code))
    } else {
        Ok(())
    }
}

/// The result of reading from a client: `received` is the text read, or `None` where the
/// runtime returned a null buffer, a failure described by the code.
pub fn read_server_outcome(received: Option<String>, code: i32) -> (res: Result<String, Error>)
    ensures
        received is None ==> (res matches Err(e) && e@ == (code, read_error_message(code))),
        received matches Some(text) ==> (res matches Ok(t) && t@ == text@),
{
    match received {
        Some(text) => Ok(text),
        None => Err(read_error(code)),
    }
}

/// The result of writing to a client: only [`ERR_INVALID_WRITE`] is a failure.
pub fn write_server_outcome(code: i32) -> (res: Result<(), Error>)
    ensures
        code != ERR_INVALID_WRITE ==> res is Ok,
        code == ERR_INVALID_WRITE ==> (res matches Err(e) && e@ == (code, write_error_message())),
{
    if code == ERR_INVALID_WRITE {
        Err(Error { err: code, string: String::from_str("write_server failed to write data to the client") })
    } else {
        Ok(())
    }
}

/// The result of creating a node: `node` is the address that the runtime returned and
/// `code` the error code that it left. A null address is a failure, described by the code.
pub fn create_node_outcome(node: usize, code: i32) -> (res: Result<Node, Error>)
    ensures
        node == 0 ==> (res matches Err(e) && e@ == (code, create_node_error_message(code))),
        node != 0 ==> (res matches Ok(n) && n@ == node),
{
    if node == 0 {
        let string = if code == ERR_FAILED_MALLOC {
            String::from_str("create_node failed to allocate memory")
        } else {
            String::from_str("create_node returned an unknown error")
        };
        Err(Error { err: code, string })
    } else {
        Ok(Node { node })
    }
}

/// The result of running a node: only [`ERR_MAX_PROC_REACHED`] is a failure.
pub fn run_node_outcome(code: i32) -> (res: Result<(), Error>)
    ensures
        code != ERR_MAX_PROC_REACHED ==> res is Ok,
        code == ERR_MAX_PROC_REACHED ==> (res matches Err(e) && e@ == (code, run_node_error_message())),
{
    if code == ERR_MAX_PROC_REACHED {
        Err(Error { err: code, string: String::from_str("run_node failed to allocate a new process") })
    } else {
        Ok(())
    }
}

/// Whether the table of reaped processes can be taken: `returned` tells whether the
/// runtime returned a table at all, and `code` is the error code that it left. A null
/// table is a failure, described by the code; so is [`ERR_FAILED_MALLOC`] with a table.
/// Only on `Ok` is the returned table to be read.
pub fn reap_outcome(returned: bool, code: i32) -> (res: Result<(), Error>)
    ensures
        !returned ==> (res matches Err(e) && e@ == (code, reap_error_message(code))),
        returned && code == ERR_FAILED_MALLOC ==> (res matches Err(e) && e@ == (
            code,
            reap_error_message(code),
        )),
        returned && code != ERR_FAILED_MALLOC ==> res is Ok,
{
    if !returned || code == ERR_FAILED_MALLOC {
        let string = if code == ERR_FAILED_MALLOC {
            String::from_str("reap_procs failed to allocate memory")
        } else {
            String::from_str("reap_procs returned an unknown error")
        };
        Err(Error { err: code, string })
    } else {
        Ok(())
    }
}

/// The status that a client callback hands back to the runtime: 0 where the handler
/// succeeded, the error's code where it failed, and -1 where no handler is registered.
pub fn callback_status(outcome: Option<Result<(), Error>>) -> (status: i32)
    ensures
        status == (match outcome {
            None => -1i32,
            Some(Ok(())) => 0i32,
            Some(Err(e)) => e@.0,
        }),
{
    match outcome {
        Some(Ok(())) => 0,
        Some(Err(err)) => err.err,
        None => -1,
    }
}

} // verus!
