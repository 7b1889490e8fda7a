//! Tests for the playlist service: the dispatcher, the proxy builders and
//! decoders, the pinned wire bytes, and the end-to-end scenario.

use converse::error::Error;
use converse::playlist::Client;
use converse::playlist::Playlist;
use converse::playlist::Reply;
use converse::playlist::Server;
use converse::procdir::EndpointState;
use converse::procdir::LockContent;
use converse::procdir::ProcessDirectory;
use converse::protocol::IPCBuffer;
use converse::protocol::IPCRequest;

fn directory() -> ProcessDirectory {
    ProcessDirectory::new("playlist", "/tmp", true, true).unwrap()
}

/// Carry one request across the in-memory wire: encode it on the client
/// side, decode it on the server side, dispatch it, and hand back the reply.
fn roundtrip(server: &mut Server, req: IPCRequest) -> Result<Reply, Error> {
    let bytes = req.write().unwrap();
    let (decoded, used) = IPCRequest::read(&bytes, 0).unwrap();
    assert_eq!(used, bytes.len());
    server.handle(&decoded)
}

/// Carry one response buffer across the in-memory wire back to the client.
fn response_of(rep: Reply) -> IPCBuffer {
    let buf = match rep {
        Reply::Response(b) => b,
        Reply::Shutdown => panic!("unexpected shutdown reply"),
    };
    let bytes = buf.write().unwrap();
    let (decoded, used) = IPCBuffer::read(&bytes, 0).unwrap();
    assert_eq!(used, bytes.len());
    decoded
}

#[test]
fn playlist_operations() {
    let mut p = Playlist::new(7);
    assert_eq!(p.data(), 7);
    assert!(p.list().is_empty());
    p.add("alpha".to_string());
    p.add("beta".to_string());
    assert_eq!(p.list(), vec!["alpha".to_string(), "beta".to_string()]);
    assert_eq!(p.get(1, "none".to_string()), "beta");
    assert_eq!(p.get(5, "none".to_string()), "none");
}

#[test]
fn end_to_end_scenario() {
    // Server side: resolve the endpoint, lock it, bind the socket.
    let server_pid = 4242;
    let mut fs = EndpointState {
        dir_present: true,
        lock: LockContent::Missing,
        socket_present: false,
    };
    let mut server =
        Server::new(Playlist::new(1234), directory(), &mut fs, server_pid).unwrap();
    assert_eq!(fs.lock, LockContent::Pid(server_pid));
    fs.socket_present = true;

    // Client side: bootstrap against the live server.
    let client_pid = 777;
    let _client = Client::connect(directory(), &fs, client_pid).unwrap();
    assert_eq!(fs.lock, LockContent::Pid(server_pid));

    // add("alpha"): ordinal 1, empty (unit) response payload.
    let rep = roundtrip(&mut server, Client::add_request("alpha").unwrap()).unwrap();
    Client::add_response(&response_of(rep)).unwrap();

    // list(): ordinal 3, expects ["alpha"].
    let rep = roundtrip(&mut server, Client::list_request()).unwrap();
    let items = Client::list_response(&response_of(rep)).unwrap();
    assert_eq!(items, vec!["alpha".to_string()]);

    // get(5, "none"): ordinal 2, expects "none" since the index is out of
    // range.
    let rep = roundtrip(&mut server, Client::get_request(5, "none").unwrap()).unwrap();
    let got = Client::get_response(&response_of(rep)).unwrap();
    assert_eq!(got, "none");

    // data(): the auxiliary payload comes back.
    let rep = roundtrip(&mut server, Client::data_request()).unwrap();
    assert_eq!(Client::data_response(&response_of(rep)).unwrap(), 1234);

    // exit(): ordinal 0; the server shuts down and the three filesystem
    // paths are removed.
    let rep = roundtrip(&mut server, Client::exit_request()).unwrap();
    assert!(matches!(rep, Reply::Shutdown));
    server.shutdown(&mut fs, server_pid);
    assert!(!fs.dir_present);
    assert_eq!(fs.lock, LockContent::Missing);
    assert!(!fs.socket_present);
}

#[test]
fn get_returns_stored_item() {
    let mut fs = EndpointState {
        dir_present: true,
        lock: LockContent::Missing,
        socket_present: false,
    };
    let mut server = Server::new(Playlist::new(0), directory(), &mut fs, 1).unwrap();
    roundtrip(&mut server, Client::add_request("alpha").unwrap()).unwrap();
    roundtrip(&mut server, Client::add_request("beta").unwrap()).unwrap();
    let rep = roundtrip(&mut server, Client::get_request(1, "none").unwrap()).unwrap();
    assert_eq!(Client::get_response(&response_of(rep)).unwrap(), "beta");
}

#[test]
fn unknown_ordinal_is_dispatch_error_and_server_continues() {
    let mut fs = EndpointState {
        dir_present: true,
        lock: LockContent::Missing,
        socket_present: false,
    };
    let mut server = Server::new(Playlist::new(0), directory(), &mut fs, 1).unwrap();
    roundtrip(&mut server, Client::add_request("alpha").unwrap()).unwrap();

    let bogus = IPCRequest::new(99, Vec::new());
    let e = roundtrip(&mut server, bogus).unwrap_err();
    assert!(matches!(e, Error::Server(_)));

    // The accept loop goes on: the next request still sees the full state.
    let rep = roundtrip(&mut server, Client::list_request()).unwrap();
    let items = Client::list_response(&response_of(rep)).unwrap();
    assert_eq!(items, vec!["alpha".to_string()]);
}

#[test]
fn wrong_argument_count_is_dispatch_error() {
    let mut fs = EndpointState {
        dir_present: true,
        lock: LockContent::Missing,
        socket_present: false,
    };
    let mut server = Server::new(Playlist::new(0), directory(), &mut fs, 1).unwrap();
    let e = roundtrip(&mut server, IPCRequest::new(1, Vec::new())).unwrap_err();
    assert!(matches!(e, Error::Server(_)));
    let rep = roundtrip(&mut server, Client::list_request()).unwrap();
    assert!(Client::list_response(&response_of(rep)).unwrap().is_empty());
}

#[test]
fn server_startup_fails_under_contention() {
    let mut fs = EndpointState {
        dir_present: true,
        lock: LockContent::Pid(9999),
        socket_present: true,
    };
    let e = Server::new(Playlist::new(0), directory(), &mut fs, 1).unwrap_err();
    assert!(matches!(e, Error::ProcessDirectory(_)));
    assert_eq!(fs.lock, LockContent::Pid(9999));
}

#[test]
fn request_wire_bytes_are_pinned() {
    // The proxy and the dispatcher agree on these exact bytes.
    let req = Client::add_request("alpha").unwrap();
    assert_eq!(req.key, 1);
    assert_eq!(req.argc, 1);
    assert_eq!(req.argv[0].data, vec![0x65, b'a', b'l', b'p', b'h', b'a']);
    let bytes = req.write().unwrap();
    assert_eq!(
        bytes,
        vec![1u8, 0, 0, 0, 1, 0, 0, 0, 6, 0, 0, 0, 0x65, b'a', b'l', b'p', b'h', b'a']
    );

    let req = Client::get_request(5, "none").unwrap();
    assert_eq!(req.key, 2);
    assert_eq!(req.argv[0].data, vec![0x05]);
    assert_eq!(req.argv[1].data, vec![0x64, b'n', b'o', b'n', b'e']);

    let req = Client::exit_request();
    assert_eq!(req.key, 0);
    assert_eq!(req.argc, 0);
}

#[test]
fn response_wire_bytes_are_pinned() {
    let mut fs = EndpointState {
        dir_present: true,
        lock: LockContent::Missing,
        socket_present: false,
    };
    let mut server = Server::new(Playlist::new(0), directory(), &mut fs, 1).unwrap();

    // add answers with the single CBOR null byte.
    let rep = roundtrip(&mut server, Client::add_request("alpha").unwrap()).unwrap();
    let buf = response_of(rep);
    assert_eq!(buf.data, vec![0xf6]);

    // list answers with a one-element CBOR array of text.
    let rep = roundtrip(&mut server, Client::list_request()).unwrap();
    let buf = response_of(rep);
    assert_eq!(buf.data, vec![0x81, 0x65, b'a', b'l', b'p', b'h', b'a']);
}

#[test]
fn malformed_response_payload_is_serialize_error() {
    let garbage = IPCBuffer::new(vec![0xffu8, 0xff, 0xff]);
    assert!(matches!(Client::get_response(&garbage).unwrap_err(), Error::Serialize(_)));
    assert!(matches!(Client::list_response(&garbage).unwrap_err(), Error::Serialize(_)));
    assert!(matches!(Client::data_response(&garbage).unwrap_err(), Error::Serialize(_)));
}

#[test]
fn malformed_argument_payload_is_serialize_error() {
    let mut fs = EndpointState {
        dir_present: true,
        lock: LockContent::Missing,
        socket_present: false,
    };
    let mut server = Server::new(Playlist::new(0), directory(), &mut fs, 1).unwrap();
    let bogus = IPCRequest::new(1, vec![vec![0xffu8, 0xff, 0xff]]);
    let e = roundtrip(&mut server, bogus).unwrap_err();
    assert!(matches!(e, Error::Serialize(_)));
    // The failed call left the state untouched.
    let rep = roundtrip(&mut server, Client::list_request()).unwrap();
    assert!(Client::list_response(&response_of(rep)).unwrap().is_empty());
}

#[test]
fn unit_response_decodes() {
    let buf = IPCBuffer::new(vec![0xf6u8]);
    assert!(Client::add_response(&buf).is_ok());
}
