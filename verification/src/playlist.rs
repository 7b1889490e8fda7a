//! The playlist service: the concrete server dispatcher and client proxy
//! for one interface, exactly as the service compiler prescribes them.
//!
//! The interface exposes `add(item) -> unit` (ordinal 1),
//! `get(index, default) -> string` (ordinal 2), `list() -> strings`
//! (ordinal 3) and `data() -> uint` (ordinal 4) on the endpoint named
//! `playlist`. The server side routes a decoded request through the
//! dispatch table and produces a single response buffer; the client side
//! builds the matching requests and decodes the responses. Both sides share
//! the model's ordinal assignment, so the two agree bit for bit on the
//! wire. Connection handling itself is the caller's concern: the functions
//! here map plain values to plain values.

use vstd::prelude::*;

use crate::error::Error;
use crate::marshal::cbor_of_str;
use crate::marshal::cbor_of_str_list;
use crate::marshal::cbor_of_uint;
use crate::marshal::decode_str;
use crate::marshal::decode_str_list;
use crate::marshal::decode_unit;
use crate::marshal::decode_usize;
use crate::marshal::encode_str;
use crate::marshal::encode_str_list;
use crate::marshal::encode_unit;
use crate::marshal::encode_usize;
use crate::marshal::lemma_cbor_of_uint_len;
use crate::model::clone_strings;
use crate::model::InterfaceModel;
use crate::model::MethodSig;
use crate::procdir::close_step;
use crate::procdir::lock_allowed;
use crate::procdir::lock_step;
use crate::procdir::msg_not_locked;
use crate::procdir::msg_socket_missing;
use crate::procdir::EndpointState;
use crate::procdir::ProcessDirectory;
use crate::protocol::buffer_wf;
use crate::protocol::request_wf;
use crate::protocol::IPCBuffer;
use crate::protocol::IPCRequest;

verus! {

/// The service state: the stored items and an auxiliary payload.
#[derive(Debug)]
pub struct Playlist {
    /// The stored items, in insertion order.
    pub list: Vec<String>,
    /// The auxiliary payload carried alongside the list.
    pub data: usize,
}

impl Playlist {
    /// A playlist with no items and the given payload.
    pub fn new(data: usize) -> (r: Self)
        ensures
            r.list@.len() == 0,
            r.data == data,
    {
        Playlist { list: Vec::new(), data }
    }

    /// Append one item at the end of the list.
    pub fn add(&mut self, x: String)
        ensures
            final(self).list@ == old(self).list@.push(x),
            final(self).data == old(self).data,
    {
        self.list.push(x);
    }

    /// The item at `i`, or `default` when `i` is out of range.
    pub fn get(&mut self, i: usize, default: String) -> (r: String)
        ensures
            *final(self) == *old(self),
            i < old(self).list@.len() ==> r@ == old(self).list.deep_view()[i as int],
            i >= old(self).list@.len() ==> r == default,
    {
        if i < self.list.len() {
            let r = self.list[i].clone();
            proof {
                assert(self.list.deep_view()[i as int] == self.list@[i as int]@);
            }
            r
        } else {
            default
        }
    }

    /// A copy of the stored items, in order.
    pub fn list(&self) -> (r: Vec<String>)
        ensures
            r.deep_view() == self.list.deep_view(),
    {
        clone_strings(&self.list)
    }

    /// The auxiliary payload.
    pub fn data(&self) -> (r: usize)
        ensures
            r == self.data,
    {
        self.data
    }
}

/// The number of argument buffers each wire ordinal of the playlist
/// interface consumes: one for `add`, two for `get`, none otherwise.
pub open spec fn playlist_arg_count(key: u32) -> int {
    if key == 1 {
        1
    } else if key == 2 {
        2
    } else {
        0
    }
}

/// The value `get` returns: the item at `i`, or the default when `i` is out
/// of range.
pub open spec fn get_result(l: Seq<Seq<char>>, i: usize, default: Seq<char>) -> Seq<char> {
    if i < l.len() {
        l[i as int]
    } else {
        default
    }
}

/// The playlist interface model: `add`, `get`, `list` and `data`, declared
/// in that order against the endpoint `playlist`, so they receive ordinals
/// 1 through 4; the parameter and return type labels record each
/// operation's signature.
pub fn playlist_model() -> (m: InterfaceModel)
    ensures
        m.ordinals_assigned(),
        m.endpoint_name@ == "playlist"@,
        m.type_params@.len() == 0,
        m.ops@.len() == 4,
        m.ops@[0].name@ == "add"@,
        m.ops@[1].name@ == "get"@,
        m.ops@[2].name@ == "list"@,
        m.ops@[3].name@ == "data"@,
        m.ops@[0].params.deep_view() == seq!["String"@],
        m.ops@[1].params.deep_view() == seq!["usize"@, "String"@],
        m.ops@[2].params.deep_view() == Seq::<Seq<char>>::empty(),
        m.ops@[3].params.deep_view() == Seq::<Seq<char>>::empty(),
        m.ops@[0].ret is None,
        m.ops@[1].ret matches Some(t) && t@ == "String"@,
        m.ops@[2].ret matches Some(t) && t@ == "Vec<String>"@,
        m.ops@[3].ret matches Some(t) && t@ == "usize"@,
        forall|k: int|
            0 <= k < 4 ==> (#[trigger] m.ops@[k]).params@.len() == playlist_arg_count(
                (k + 1) as u32,
            ),
{
    let mut methods: Vec<MethodSig> = Vec::new();
    let mut add_params: Vec<String> = Vec::new();
    add_params.push(String::from_str("String"));
    let ghost add_params_view = add_params.deep_view();
    methods.push(MethodSig { name: String::from_str("add"), params: add_params, ret: None });
    let mut get_params: Vec<String> = Vec::new();
    get_params.push(String::from_str("usize"));
    get_params.push(String::from_str("String"));
    let ghost get_params_view = get_params.deep_view();
    methods.push(
        MethodSig {
            name: String::from_str("get"),
            params: get_params,
            ret: Some(String::from_str("String")),
        },
    );
    let no_params: Vec<String> = Vec::new();
    let ghost no_params_view = no_params.deep_view();
    methods.push(
        MethodSig {
            name: String::from_str("list"),
            params: no_params,
            ret: Some(String::from_str("Vec<String>")),
        },
    );
    methods.push(
        MethodSig {
            name: String::from_str("data"),
            params: Vec::new(),
            ret: Some(String::from_str("usize")),
        },
    );
    let m = InterfaceModel::new(String::from_str("playlist"), Vec::new(), methods);
    proof {
        assert(add_params_view =~= seq!["String"@]);
        assert(get_params_view =~= seq!["usize"@, "String"@]);
        assert(no_params_view =~= Seq::<Seq<char>>::empty());
        assert(m.ops@[3].params.deep_view() =~= Seq::<Seq<char>>::empty());
    }
    m
}

/// What the dispatcher asks of the connection after one request: either
/// write back a single response buffer, or shut the server down.
#[derive(Debug)]
pub enum Reply {
    /// A single response buffer to write back on the connection.
    Response(IPCBuffer),
    /// The reserved shutdown ordinal was received: release the endpoint and
    /// terminate.
    Shutdown,
}

/// The playlist server: the service state plus the endpoint directory it
/// owns while running. The caller binds the listener on the directory's
/// socket path and feeds each decoded request through `handle`.
#[derive(Debug)]
pub struct Server {
    /// The service state the dispatcher routes into.
    pub state: Playlist,
    /// The endpoint directory owned by this server.
    pub proc: ProcessDirectory,
}

impl Server {
    /// Start a server: apply the locking rule to the observed endpoint
    /// state. Startup fails with a directory error when another process
    /// holds the lock; on success the caller mirrors the lock on disk and
    /// binds the listener.
    pub fn new(state: Playlist, proc: ProcessDirectory, fs: &mut EndpointState, caller: u32) -> (r:
        Result<Server, Error>)
        ensures
            *final(fs) == lock_step(*old(fs), caller),
            lock_allowed(*old(fs), caller) ==> (r matches Ok(s) && s.state == state && s.proc
                == proc),
            !lock_allowed(*old(fs), caller) ==> (r matches Err(e) && e matches
                Error::ProcessDirectory(_)),
    {
        match proc.lock(fs, caller) {
            Ok(_) => Ok(Server { state, proc }),
            Err(e) => Err(e),
        }
    }

    /// Dispatch one request. Ordinal 0 asks for shutdown; ordinals 1
    /// through 4 route to the playlist operations, deserializing each
    /// argument buffer in positional order, invoking the operation, and
    /// serializing the result as a single response buffer, which is owed
    /// whenever the arguments decode and the response fits a frame; any
    /// other ordinal, and any argument-count mismatch, is a reported
    /// dispatch error that leaves the state untouched.
    pub fn handle(&mut self, req: &IPCRequest) -> (r: Result<Reply, Error>)
        ensures
            req.key == 0 ==> (r matches Ok(rep) && rep is Shutdown && *final(self) == *old(self)),
            req.key != 0 ==> !(r matches Ok(rep) && rep is Shutdown),
            req.key > 4 ==> (r matches Err(e) && e matches Error::Server(_) && *final(self)
                == *old(self)),
            1 <= req.key <= 4 && req@.argv.len() != playlist_arg_count(req.key) ==> (r matches Err(
            e) && e matches Error::Server(_) && *final(self) == *old(self)),
            req.key == 1 && req@.argv.len() == 1 ==> {
                &&& (r matches Err(e) ==> e matches Error::Serialize(_) && *final(self) == *old(
                    self,
                ))
                &&& ((exists|s: Seq<char>| req@.argv[0].data == cbor_of_str(s)) ==> r is Ok)
                &&& (r matches Ok(rep) ==> {
                    &&& rep matches Reply::Response(b) && buffer_wf(b@) && b.data@ == seq![0xf6u8]
                    &&& (forall|s: Seq<char>|
                        req@.argv[0].data == cbor_of_str(s)
                            ==> final(self).state.list.deep_view() == old(
                            self,
                        ).state.list.deep_view().push(s))
                    &&& (exists|t: Seq<char>|
                        final(self).state.list.deep_view() == old(
                            self,
                        ).state.list.deep_view().push(t))
                    &&& final(self).state.data == old(self).state.data
                    &&& final(self).proc == old(self).proc
                })
            },
            req.key == 2 && req@.argv.len() == 2 ==> {
                &&& *final(self) == *old(self)
                &&& (r matches Err(e) ==> e matches Error::Serialize(_) || e matches Error::Server(
                    _,
                ))
                &&& (r matches Ok(rep) ==> rep matches Reply::Response(b) && buffer_wf(b@))
                &&& (forall|i: usize, d: Seq<char>|
                    req@.argv[0].data == cbor_of_uint(i as u64) && req@.argv[1].data == cbor_of_str(
                        d,
                    ) ==> {
                        &&& (cbor_of_str(
                            get_result(old(self).state.list.deep_view(), i, d),
                        ).len() <= u32::MAX ==> (r matches Ok(rep) && rep matches Reply::Response(b)
                            && b.data@ == cbor_of_str(
                            get_result(old(self).state.list.deep_view(), i, d),
                        )))
                        &&& (cbor_of_str(
                            get_result(old(self).state.list.deep_view(), i, d),
                        ).len() > u32::MAX ==> (r matches Err(e) && e matches Error::Server(_)))
                    })
            },
            req.key == 3 && req@.argv.len() == 0 ==> {
                &&& *final(self) == *old(self)
                &&& (cbor_of_str_list(old(self).state.list.deep_view()).len() <= u32::MAX ==> (
                r matches Ok(rep) && rep matches Reply::Response(b) && buffer_wf(b@) && b.data@
                    == cbor_of_str_list(old(self).state.list.deep_view())))
                &&& (cbor_of_str_list(old(self).state.list.deep_view()).len() > u32::MAX ==> (
                r matches Err(e) && e matches Error::Server(_)))
            },
            req.key == 4 && req@.argv.len() == 0 ==> {
                &&& *final(self) == *old(self)
                &&& r matches Ok(rep) && rep matches Reply::Response(b) && buffer_wf(b@)
                    && b.data@ == cbor_of_uint(old(self).state.data as u64)
            },
    {
        proof {
            assert(req@.argv.len() == req.argv@.len());
        }
        if req.key == 0 {
            return Ok(Reply::Shutdown);
        }
        if req.key == 1 {
            if req.argv.len() != 1 {
                return Err(Error::Server(String::from_str("wrong argument count")));
            }
            proof {
                assert(req@.argv[0] == req.argv@[0]@);
            }
            let item = decode_str(req.argv[0].data.as_slice())?;
            let unit = encode_unit()?;
            let buf = IPCBuffer::new(unit);
            let ghost before = self.state.list.deep_view();
            self.state.add(item);
            proof {
                assert(self.state.list.deep_view() =~= before.push(item@));
            }
            return Ok(Reply::Response(buf));
        }
        if req.key == 2 {
            if req.argv.len() != 2 {
                return Err(Error::Server(String::from_str("wrong argument count")));
            }
            proof {
                assert(req@.argv[0] == req.argv@[0]@);
                assert(req@.argv[1] == req.argv@[1]@);
            }
            let ghost list0 = self.state.list.deep_view();
            let index = decode_usize(req.argv[0].data.as_slice())?;
            let default = decode_str(req.argv[1].data.as_slice())?;
            let ghost dview = default@;
            let out = self.state.get(index, default);
            let enc = encode_str(out.as_str())?;
            proof {
                assert(out@ == get_result(list0, index, dview));
                assert forall|i: usize, d: Seq<char>|
                    req@.argv[0].data == cbor_of_uint(i as u64) && req@.argv[1].data
                        == cbor_of_str(d) implies cbor_of_str(get_result(list0, i, d))
                    == enc@ by {
                    assert(index == i);
                    assert(dview == d);
                }
            }
            if enc.len() > u32::MAX as usize {
                return Err(Error::Server(String::from_str("response too large to frame")));
            }
            return Ok(Reply::Response(IPCBuffer::new(enc)));
        }
        if req.key == 3 {
            if req.argv.len() != 0 {
                return Err(Error::Server(String::from_str("wrong argument count")));
            }
            let out = self.state.list();
            let enc = encode_str_list(&out)?;
            if enc.len() > u32::MAX as usize {
                return Err(Error::Server(String::from_str("response too large to frame")));
            }
            return Ok(Reply::Response(IPCBuffer::new(enc)));
        }
        if req.key == 4 {
            if req.argv.len() != 0 {
                return Err(Error::Server(String::from_str("wrong argument count")));
            }
            let d = self.state.data();
            let enc = encode_usize(d)?;
            proof {
                lemma_cbor_of_uint_len(d as u64);
            }
            return Ok(Reply::Response(IPCBuffer::new(enc)));
        }
        Err(Error::Server(String::from_str("invalid function called")))
    }

    /// Shut down: apply the closing rule to the observed endpoint state.
    /// The caller mirrors the removals on disk and terminates the process.
    pub fn shutdown(&self, fs: &mut EndpointState, caller: u32)
        ensures
            *final(fs) == close_step(*old(fs), caller),
    {
        self.proc.close(fs, caller);
    }
}

/// The playlist client proxy: a non-owning view of the endpoint directory.
/// Each call builds one request, which the caller sends over one fresh
/// connection, and decodes the single response buffer that comes back.
#[derive(Debug)]
pub struct Client {
    /// The endpoint directory, held read-only; a client never locks on its
    /// own behalf and never deletes.
    pub proc: ProcessDirectory,
}

impl Client {
    /// The client bootstrap: the socket file must exist, and the locking
    /// rule must deny the caller the lock — proving a live server holds the
    /// endpoint — before a client is handed out. Each precondition failure
    /// is a distinct client error; the probe never acquires the lock, so
    /// the observed state is read, not changed.
    pub fn connect(proc: ProcessDirectory, fs: &EndpointState, caller: u32) -> (r: Result<
        Client,
        Error,
    >)
        ensures
            !fs.socket_present ==> (r matches Err(e) && e matches Error::Client(m) && m@
                == msg_socket_missing()),
            fs.socket_present && lock_allowed(*fs, caller) ==> (r matches Err(e) && e matches
                Error::Client(m) && m@ == msg_not_locked()),
            fs.socket_present && !lock_allowed(*fs, caller) ==> (r matches Ok(c) && c.proc
                == proc),
    {
        match proc.client_bootstrap(fs, caller) {
            Ok(_) => Ok(Client { proc }),
            Err(e) => Err(e),
        }
    }

    /// The request `add(item)` sends: ordinal 1 with one serialized
    /// argument. A request is owed whenever the serialized item fits a
    /// frame.
    pub fn add_request(item: &str) -> (r: Result<IPCRequest, Error>)
        ensures
            cbor_of_str(item@).len() <= u32::MAX ==> (r matches Ok(q) && {
                &&& q@.key == 1 && q@.argc == 1 && q@.argv.len() == 1
                &&& q@.argv[0].data == cbor_of_str(item@)
                &&& request_wf(q@)
            }),
            cbor_of_str(item@).len() > u32::MAX ==> (r matches Err(e) && e matches Error::Client(
                _,
            )),
    {
        let v = encode_str(item)?;
        if v.len() > u32::MAX as usize {
            return Err(Error::Client(String::from_str("argument too large to frame")));
        }
        let mut argv: Vec<Vec<u8>> = Vec::new();
        argv.push(v);
        Ok(IPCRequest::new(1, argv))
    }

    /// The request `get(index, default)` sends: ordinal 2 with two
    /// serialized arguments in positional order. A request is owed whenever
    /// the serialized default fits a frame; the serialized index always
    /// does.
    pub fn get_request(index: usize, default: &str) -> (r: Result<IPCRequest, Error>)
        ensures
            cbor_of_str(default@).len() <= u32::MAX ==> (r matches Ok(q) && {
                &&& q@.key == 2 && q@.argc == 2 && q@.argv.len() == 2
                &&& q@.argv[0].data == cbor_of_uint(index as u64)
                &&& q@.argv[1].data == cbor_of_str(default@)
                &&& request_wf(q@)
            }),
            cbor_of_str(default@).len() > u32::MAX ==> (r matches Err(e) && e matches
                Error::Client(_)),
    {
        let v0 = encode_usize(index)?;
        let v1 = encode_str(default)?;
        proof {
            lemma_cbor_of_uint_len(index as u64);
        }
        if v1.len() > u32::MAX as usize {
            return Err(Error::Client(String::from_str("argument too large to frame")));
        }
        let mut argv: Vec<Vec<u8>> = Vec::new();
        argv.push(v0);
        argv.push(v1);
        Ok(IPCRequest::new(2, argv))
    }

    /// The request `list()` sends: ordinal 3 with no arguments.
    pub fn list_request() -> (r: IPCRequest)
        ensures
            r@.key == 3 && r@.argc == 0 && r@.argv.len() == 0,
            request_wf(r@),
    {
        IPCRequest::new(3, Vec::new())
    }

    /// The request `data()` sends: ordinal 4 with no arguments.
    pub fn data_request() -> (r: IPCRequest)
        ensures
            r@.key == 4 && r@.argc == 0 && r@.argv.len() == 0,
            request_wf(r@),
    {
        IPCRequest::new(4, Vec::new())
    }

    /// The request `exit()` sends: the reserved shutdown ordinal 0 with no
    /// arguments. No response is awaited, matching the server's
    /// abrupt-exit policy.
    pub fn exit_request() -> (r: IPCRequest)
        ensures
            r@.key == 0 && r@.argc == 0 && r@.argv.len() == 0,
            request_wf(r@),
    {
        IPCRequest::new(0, Vec::new())
    }

    /// Decode the response of `add`: the unit payload.
    pub fn add_response(b: &IPCBuffer) -> (r: Result<(), Error>)
        ensures
            b.data@ == seq![0xf6u8] ==> r is Ok,
            r matches Err(e) ==> e matches Error::Serialize(_),
    {
        decode_unit(b.data.as_slice())
    }

    /// Decode the response of `get`: the returned string.
    pub fn get_response(b: &IPCBuffer) -> (r: Result<String, Error>)
        ensures
            forall|s: Seq<char>| b.data@ == cbor_of_str(s) ==> (r matches Ok(v) && v@ == s),
            r matches Err(e) ==> e matches Error::Serialize(_),
    {
        decode_str(b.data.as_slice())
    }

    /// Decode the response of `list`: the returned strings.
    pub fn list_response(b: &IPCBuffer) -> (r: Result<Vec<String>, Error>)
        ensures
            forall|l: Seq<Seq<char>>|
                b.data@ == cbor_of_str_list(l) ==> (r matches Ok(v) && v.deep_view() == l),
            r matches Err(e) ==> e matches Error::Serialize(_),
    {
        decode_str_list(b.data.as_slice())
    }

    /// Decode the response of `data`: the returned integer.
    pub fn data_response(b: &IPCBuffer) -> (r: Result<usize, Error>)
        ensures
            forall|n: usize| b.data@ == #[trigger] cbor_of_uint(n as u64) ==> (r matches Ok(v)
                && v == n),
            r matches Err(e) ==> e matches Error::Serialize(_),
    {
        decode_usize(b.data.as_slice())
    }
}

} // verus!
