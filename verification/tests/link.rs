use feo::link::{
    callback_status, create_node_outcome, listen_error, new_server_outcome, read_error,
    read_server_outcome, reap_outcome, run_node_outcome, run_server_error, run_server_outcome,
    write_server_outcome, ClientConnection, Server, ERR_EXECLP, ERR_FAILED_ACCEPT,
    ERR_FAILED_BIND, ERR_FAILED_CREATE_SSL, ERR_FAILED_CREATE_SSL_CTX, ERR_FAILED_LISTEN,
    ERR_FAILED_MALLOC, ERR_INVALID_READ, ERR_INVALID_WRITE, ERR_MAX_PROC_REACHED,
    ERR_NO_CERT_FILE, ERR_NO_PRIV_FILE, ERR_NO_SOCKET, ERR_OK,
};

#[test]
fn listen_error_messages() {
    let cases = [
        (ERR_FAILED_MALLOC, "listen_clients failed to allocate memory"),
        (ERR_FAILED_CREATE_SSL_CTX, "listen_clients failed to create an OpenSSL context"),
        (ERR_NO_CERT_FILE, "listen_clients could not find a certificate file"),
        (ERR_NO_PRIV_FILE, "listen_clients could not find a private key file"),
        (ERR_NO_SOCKET, "listen_clients failed to create a socket"),
        (ERR_FAILED_BIND, "listen_clients failed to bind the socket"),
        (ERR_FAILED_LISTEN, "listen_clients failed to listen for clients"),
        (ERR_OK, "listen_clients returned an unknown error"),
        (0x7f, "listen_clients returned an unknown error"),
    ];
    for (code, message) in cases {
        let e = listen_error(code);
        assert_eq!(e.code(), code);
        assert_eq!(e.message(), message);
    }
}

#[test]
fn run_server_error_messages() {
    assert_eq!(run_server_error(ERR_FAILED_ACCEPT).message(), "run_server failed to accept a client");
    assert_eq!(run_server_error(ERR_FAILED_CREATE_SSL).message(), "run_server failed to create an SSL object");
    assert_eq!(run_server_error(ERR_FAILED_MALLOC).message(), "run_server failed to allocate memory");
    assert_eq!(run_server_error(ERR_NO_SOCKET).message(), "run_server returned an unknown error");
}

#[test]
fn read_error_messages() {
    assert_eq!(read_error(ERR_INVALID_READ).message(), "read_server failed to read data from the client");
    assert_eq!(read_error(ERR_FAILED_MALLOC).message(), "read_server failed to allocate memory");
    assert_eq!(read_error(ERR_OK).message(), "read_server returned an unknown error");
}

#[test]
fn new_server_outcomes() {
    let e = new_server_outcome(0, ERR_FAILED_BIND).err().unwrap();
    assert_eq!(e.code(), ERR_FAILED_BIND);
    assert_eq!(e.message(), "listen_clients failed to bind the socket");
    let s = new_server_outcome(0x1000, ERR_OK).ok().unwrap();
    assert_eq!(s.server, 0x1000);
}

#[test]
fn run_server_outcomes() {
    assert!(run_server_outcome(ERR_OK).is_ok());
    let e = run_server_outcome(ERR_FAILED_ACCEPT).err().unwrap();
    assert_eq!(e.code(), ERR_FAILED_ACCEPT);
}

#[test]
fn read_server_outcomes() {
    assert_eq!(read_server_outcome(Some("upload".to_string()), ERR_OK).ok().unwrap(), "upload");
    let e = read_server_outcome(None, ERR_INVALID_READ).err().unwrap();
    assert_eq!(e.code(), ERR_INVALID_READ);
    assert_eq!(e.message(), "read_server failed to read data from the client");
}

#[test]
fn write_server_outcomes() {
    assert!(write_server_outcome(ERR_OK).is_ok());
    assert!(write_server_outcome(ERR_FAILED_MALLOC).is_ok());
    let e = write_server_outcome(ERR_INVALID_WRITE).err().unwrap();
    assert_eq!(e.code(), ERR_INVALID_WRITE);
    assert_eq!(e.message(), "write_server failed to write data to the client");
}

#[test]
fn create_node_outcomes() {
    let e = create_node_outcome(0, ERR_FAILED_MALLOC).err().unwrap();
    assert_eq!(e.code(), ERR_FAILED_MALLOC);
    assert_eq!(e.message(), "create_node failed to allocate memory");
    let e = create_node_outcome(0, ERR_OK).err().unwrap();
    assert_eq!(e.code(), ERR_OK);
    assert_eq!(e.message(), "create_node returned an unknown error");
    assert_eq!(create_node_outcome(0x2000, ERR_OK).ok().unwrap().handle(), 0x2000);
    assert_eq!(create_node_outcome(0x2000, ERR_FAILED_MALLOC).ok().unwrap().handle(), 0x2000);
}

#[test]
fn run_node_outcomes() {
    assert!(run_node_outcome(ERR_OK).is_ok());
    assert!(run_node_outcome(ERR_EXECLP).is_ok());
    let e = run_node_outcome(ERR_MAX_PROC_REACHED).err().unwrap();
    assert_eq!(e.message(), "run_node failed to allocate a new process");
}

#[test]
fn reap_outcomes() {
    assert!(reap_outcome(true, ERR_OK).is_ok());
    assert!(reap_outcome(true, ERR_EXECLP).is_ok());
    let e = reap_outcome(false, ERR_FAILED_MALLOC).err().unwrap();
    assert_eq!(e.code(), ERR_FAILED_MALLOC);
    assert_eq!(e.message(), "reap_procs failed to allocate memory");
    let e = reap_outcome(true, ERR_FAILED_MALLOC).err().unwrap();
    assert_eq!(e.message(), "reap_procs failed to allocate memory");
    let e = reap_outcome(false, ERR_OK).err().unwrap();
    assert_eq!(e.code(), ERR_OK);
    assert_eq!(e.message(), "reap_procs returned an unknown error");
}

#[test]
fn callback_statuses() {
    assert_eq!(callback_status(None), -1);
    assert_eq!(callback_status(Some(Ok(()))), 0);
    assert_eq!(callback_status(Some(Err(read_error(ERR_INVALID_READ)))), ERR_INVALID_READ);
}

#[test]
fn default_handles_are_null() {
    assert_eq!(Server::default().server, 0);
    assert_eq!(ClientConnection::default().handle(), 0);
    assert_eq!(ClientConnection::from_handle(42).handle(), 42);
}
