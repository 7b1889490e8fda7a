//! The wire codec: length-prefixed byte buffers and the request envelope.
//!
//! A buffer is framed as a 4-byte length followed by exactly that many bytes;
//! a request is framed as a 4-byte operation key, a 4-byte argument count and
//! then that many framed buffers. Integers use fixed-width little-endian
//! encoding; both peers run on the same host by construction, so no byte-order
//! conversion is ever needed. The encoder and the parser are specified as
//! mathematical functions on byte sequences, and the two are proved to be
//! exact inverses.

use vstd::prelude::*;
use vstd::bytes::*;
use vstd::slice::slice_index_get;
use vstd::slice::slice_subrange;

use crate::error::Error;

verus! {

/// One length-prefixed argument or response payload.
#[derive(Debug)]
pub struct IPCBuffer {
    /// The framed length; on the wire it must equal `data.len()`.
    pub len: u32,
    /// The payload bytes.
    pub data: Vec<u8>,
}

/// One request envelope: an operation key and its argument buffers.
#[derive(Debug)]
pub struct IPCRequest {
    /// The wire ordinal of the operation to invoke; 0 is the reserved
    /// shutdown key.
    pub key: u32,
    /// The framed argument count; always equal to `argv.len()` in a
    /// well-formed request.
    pub argc: u32,
    /// The argument buffers, in positional order.
    pub argv: Vec<IPCBuffer>,
}

/// The mathematical content of an `IPCBuffer`.
pub struct BufferView {
    /// The framed length.
    pub len: u32,
    /// The payload bytes.
    pub data: Seq<u8>,
}

/// The mathematical content of an `IPCRequest`.
pub struct RequestView {
    /// The operation key.
    pub key: u32,
    /// The framed argument count.
    pub argc: u32,
    /// The argument buffers.
    pub argv: Seq<BufferView>,
}

impl View for IPCBuffer {
    type V = BufferView;

    open spec fn view(&self) -> BufferView {
        BufferView { len: self.len, data: self.data@ }
    }
}

impl View for IPCRequest {
    type V = RequestView;

    open spec fn view(&self) -> RequestView {
        RequestView {
            key: self.key,
            argc: self.argc,
            argv: self.argv@.map_values(|b: IPCBuffer| b@),
        }
    }
}

/// A buffer is well formed when its framed length equals its actual length.
pub open spec fn buffer_wf(b: BufferView) -> bool {
    b.len == b.data.len()
}

/// A request is well formed when its framed argument count equals the number
/// of argument buffers and each buffer is well formed.
pub open spec fn request_wf(r: RequestView) -> bool {
    &&& r.argc == r.argv.len()
    &&& forall|i: int| 0 <= i < r.argv.len() ==> buffer_wf(#[trigger] r.argv[i])
}

/// The wire encoding of a buffer: 4 length bytes, then the payload.
pub open spec fn buffer_bytes(b: BufferView) -> Seq<u8> {
    spec_u32_to_le_bytes(b.len) + b.data
}

/// The wire encoding of a sequence of buffers, in order.
pub open spec fn argv_bytes(argv: Seq<BufferView>) -> Seq<u8>
    decreases argv.len(),
{
    if argv.len() == 0 {
        Seq::empty()
    } else {
        buffer_bytes(argv.first()) + argv_bytes(argv.drop_first())
    }
}

/// The wire encoding of a request: key, count, then each buffer.
pub open spec fn request_bytes(r: RequestView) -> Seq<u8> {
    spec_u32_to_le_bytes(r.key) + spec_u32_to_le_bytes(r.argc) + argv_bytes(r.argv)
}

/// Parse 4 little-endian bytes at `pos` as a `u32`; `None` on a short read.
pub open spec fn parse_u32_at(bytes: Seq<u8>, pos: int) -> Option<(u32, int)> {
    if 0 <= pos && pos + 4 <= bytes.len() {
        Some((spec_u32_from_le_bytes(bytes.subrange(pos, pos + 4)), pos + 4))
    } else {
        None
    }
}

/// Parse one framed buffer at `pos`; `None` on a short read.
pub open spec fn parse_buffer_at(bytes: Seq<u8>, pos: int) -> Option<(BufferView, int)> {
    match parse_u32_at(bytes, pos) {
        Some((len, p)) => if p + len <= bytes.len() {
            Some((BufferView { len, data: bytes.subrange(p, p + len) }, p + len))
        } else {
            None
        },
        None => None,
    }
}

/// Parse `n` framed buffers in sequence starting at `pos`.
pub open spec fn parse_argv_at(bytes: Seq<u8>, pos: int, n: nat) -> Option<(Seq<BufferView>, int)>
    decreases n,
{
    if n == 0 {
        Some((Seq::empty(), pos))
    } else {
        match parse_buffer_at(bytes, pos) {
            Some((b, p)) => match parse_argv_at(bytes, p, (n - 1) as nat) {
                Some((rest, q)) => Some((seq![b] + rest, q)),
                None => None,
            },
            None => None,
        }
    }
}

/// Parse one request envelope at `pos`: key, count, then count buffers.
pub open spec fn parse_request_at(bytes: Seq<u8>, pos: int) -> Option<(RequestView, int)> {
    match parse_u32_at(bytes, pos) {
        Some((key, p1)) => match parse_u32_at(bytes, p1) {
            Some((argc, p2)) => match parse_argv_at(bytes, p2, argc as nat) {
                Some((argv, p3)) => Some((RequestView { key, argc, argv }, p3)),
                None => None,
            },
            None => None,
        },
        None => None,
    }
}

/// Append every byte of `src` to `out`.
fn append_bytes(out: &mut Vec<u8>, src: &[u8])
    ensures
        final(out)@ == old(out)@ + src@,
{
    let mut j: usize = 0;
    while j < src.len()
        invariant
            j <= src@.len(),
            out@ == old(out)@ + src@.subrange(0, j as int),
        decreases src@.len() - j,
    {
        let b = *slice_index_get(src, j);
        out.push(b);
        proof {
            assert(old(out)@ + src@.subrange(0, j + 1) =~= (old(out)@ + src@.subrange(
                0,
                j as int,
            )).push(src@[j as int]));
        }
        j = j + 1;
    }
    proof {
        assert(src@.subrange(0, src@.len() as int) =~= src@);
    }
}

/// Read 4 little-endian bytes at `pos` as a `u32`; `None` on a short read.
fn read_u32(bytes: &Vec<u8>, pos: usize) -> (r: Option<(u32, usize)>)
    ensures
        match r {
            Some((x, next)) => {
                &&& parse_u32_at(bytes@, pos as int) == Some((x, next as int))
                &&& next == pos + 4
                &&& next <= bytes@.len()
            },
            None => parse_u32_at(bytes@, pos as int) is None,
        },
{
    if pos <= bytes.len() && bytes.len() - pos >= 4 {
        let chunk = slice_subrange(bytes.as_slice(), pos, pos + 4);
        let x = u32_from_le_bytes(chunk);
        Some((x, pos + 4))
    } else {
        None
    }
}

impl IPCBuffer {
    /// Frame a payload, recording its length.
    pub fn new(data: Vec<u8>) -> (r: Self)
        requires
            data@.len() <= u32::MAX,
        ensures
            r@ == (BufferView { len: data@.len() as u32, data: data@ }),
            buffer_wf(r@),
    {
        let len = data.len() as u32;
        IPCBuffer { len, data }
    }

    /// Decode one framed buffer from `bytes` starting at `pos`, returning the
    /// buffer and the position just past it. A short read is an I/O error,
    /// never a partial result.
    pub fn read(bytes: &Vec<u8>, pos: usize) -> (r: Result<(Self, usize), Error>)
        ensures
            match r {
                Ok(p) => parse_buffer_at(bytes@, pos as int) == Some((p.0@, p.1 as int)),
                Err(e) => parse_buffer_at(bytes@, pos as int) is None && e matches Error::Io(_),
            },
    {
        let (len, p) = match read_u32(bytes, pos) {
            Some(x) => x,
            None => {
                return Err(Error::Io(String::from_str("short read: buffer length")));
            },
        };
        if bytes.len() - p < len as usize {
            return Err(Error::Io(String::from_str("short read: buffer payload")));
        }
        let end = p + len as usize;
        let mut data: Vec<u8> = Vec::new();
        let mut j: usize = 0;
        while j < len as usize
            invariant
                j <= len as usize,
                p + len as usize <= bytes@.len(),
                bytes@.len() <= usize::MAX,
                data@ == bytes@.subrange(p as int, p + j),
            decreases len as usize - j,
        {
            let b = bytes[p + j];
            data.push(b);
            proof {
                assert(bytes@.subrange(p as int, p + j + 1) =~= bytes@.subrange(
                    p as int,
                    p + j as int,
                ).push(bytes@[p + j]));
            }
            j = j + 1;
        }
        Ok((IPCBuffer { len, data }, end))
    }

    /// Encode this buffer as its wire bytes. A mismatch between the recorded
    /// length and the payload length is reported as a server error.
    pub fn write(&self) -> (r: Result<Vec<u8>, Error>)
        ensures
            match r {
                Ok(v) => buffer_wf(self@) && v@ == buffer_bytes(self@),
                Err(e) => !buffer_wf(self@) && e matches Error::Server(_),
            },
    {
        if self.len as usize != self.data.len() {
            return Err(Error::Server(String::from_str("buffer length mismatch")));
        }
        let mut out = u32_to_le_bytes(self.len);
        append_bytes(&mut out, self.data.as_slice());
        Ok(out)
    }
}

impl IPCRequest {
    /// Build a request from raw argument payloads, framing each one and
    /// recording the argument count.
    pub fn new(key: u32, argv: Vec<Vec<u8>>) -> (r: Self)
        requires
            argv@.len() <= u32::MAX,
            forall|i: int| 0 <= i < argv@.len() ==> (#[trigger] argv@[i])@.len() <= u32::MAX,
        ensures
            r@.key == key,
            r@.argc == argv@.len(),
            r@.argv.len() == argv@.len(),
            forall|i: int|
                0 <= i < argv@.len() ==> (#[trigger] r@.argv[i]) == (BufferView {
                    len: argv@[i]@.len() as u32,
                    data: argv@[i]@,
                }),
            request_wf(r@),
    {
        let ghost orig = argv@;
        let mut rest = argv;
        let mut bufs: Vec<IPCBuffer> = Vec::new();
        while rest.len() > 0
            invariant
                bufs@.len() + rest@.len() == orig.len(),
                rest@ == orig.subrange(bufs@.len() as int, orig.len() as int),
                forall|i: int| 0 <= i < orig.len() ==> (#[trigger] orig[i])@.len() <= u32::MAX,
                forall|i: int|
                    0 <= i < bufs@.len() ==> (#[trigger] bufs@[i])@ == (BufferView {
                        len: orig[i]@.len() as u32,
                        data: orig[i]@,
                    }),
            decreases rest@.len(),
        {
            let payload = rest.remove(0);
            assert(payload == orig[bufs@.len() as int]);
            let buf = IPCBuffer::new(payload);
            bufs.push(buf);
            proof {
                assert(rest@ =~= orig.subrange(bufs@.len() as int, orig.len() as int));
            }
        }
        let argc = bufs.len() as u32;
        let r = IPCRequest { key, argc, argv: bufs };
        proof {
            assert(r@.argv =~= r.argv@.map_values(|b: IPCBuffer| b@));
        }
        r
    }

    /// Decode one request envelope from `bytes` starting at `pos`, returning
    /// the request and the position just past it. A short read anywhere is an
    /// I/O error.
    pub fn read(bytes: &Vec<u8>, pos: usize) -> (r: Result<(Self, usize), Error>)
        ensures
            match r {
                Ok(p) => parse_request_at(bytes@, pos as int) == Some((p.0@, p.1 as int)),
                Err(e) => parse_request_at(bytes@, pos as int) is None && e matches Error::Io(_),
            },
    {
        let (key, p1) = match read_u32(bytes, pos) {
            Some(x) => x,
            None => {
                return Err(Error::Io(String::from_str("short read: request key")));
            },
        };
        let (argc, p2) = match read_u32(bytes, p1) {
            Some(x) => x,
            None => {
                return Err(Error::Io(String::from_str("short read: argument count")));
            },
        };
        let mut bufs: Vec<IPCBuffer> = Vec::new();
        let mut cur: usize = p2;
        let mut i: u32 = 0;
        while i < argc
            invariant
                i <= argc,
                bufs@.len() == i,
                cur <= bytes@.len(),
                parse_u32_at(bytes@, pos as int) == Some((key, p1 as int)),
                parse_u32_at(bytes@, p1 as int) == Some((argc, p2 as int)),
                parse_argv_at(bytes@, p2 as int, i as nat) == Some(
                    (bufs@.map_values(|b: IPCBuffer| b@), cur as int),
                ),
            decreases argc - i,
        {
            let (buf, next) = match Self::read_one(bytes, cur) {
                Ok(x) => x,
                Err(e) => {
                    proof {
                        assert(parse_argv_at(bytes@, p2 as int, i as nat) matches Some(p) && p.1
                            == cur as int);
                        lemma_parse_argv_at_fails(bytes@, p2 as int, i as nat, argc as nat);
                        assert(parse_request_at(bytes@, pos as int) is None);
                    }
                    return Err(e);
                },
            };
            proof {
                lemma_parse_argv_at_push(bytes@, p2 as int, i as nat, buf@, next as int);
                assert(bufs@.push(buf).map_values(|b: IPCBuffer| b@) =~= bufs@.map_values(
                    |b: IPCBuffer| b@,
                ).push(buf@));
            }
            bufs.push(buf);
            cur = next;
            i = i + 1;
        }
        let r = IPCRequest { key, argc, argv: bufs };
        proof {
            assert(r@.argv =~= bufs@.map_values(|b: IPCBuffer| b@));
        }
        Ok((r, cur))
    }

    /// Decode one argument buffer; a helper for `read` that keeps the
    /// parse-position bookkeeping in one place.
    fn read_one(bytes: &Vec<u8>, pos: usize) -> (r: Result<(IPCBuffer, usize), Error>)
        ensures
            match r {
                Ok(p) => {
                    &&& parse_buffer_at(bytes@, pos as int) == Some((p.0@, p.1 as int))
                    &&& p.1 <= bytes@.len()
                },
                Err(e) => parse_buffer_at(bytes@, pos as int) is None && e matches Error::Io(_),
            },
    {
        let r = IPCBuffer::read(bytes, pos)?;
        Ok(r)
    }

    /// Encode this request as its wire bytes. The framed argument count must
    /// match the number of buffers; a length mismatch inside any buffer is
    /// reported as a server error.
    pub fn write(&self) -> (r: Result<Vec<u8>, Error>)
        requires
            self.argc == self.argv@.len(),
        ensures
            match r {
                Ok(v) => request_wf(self@) && v@ == request_bytes(self@),
                Err(e) => !request_wf(self@) && e matches Error::Server(_),
            },
    {
        let mut out = u32_to_le_bytes(self.key);
        let argc_bytes = u32_to_le_bytes(self.argc);
        append_bytes(&mut out, argc_bytes.as_slice());
        let mut i: usize = 0;
        while i < self.argv.len()
            invariant
                i <= self.argv@.len(),
                out@ == spec_u32_to_le_bytes(self.key) + spec_u32_to_le_bytes(self.argc)
                    + argv_bytes(self@.argv.take(i as int)),
                forall|k: int| 0 <= k < i ==> buffer_wf(#[trigger] self@.argv[k]),
            decreases self.argv@.len() - i,
        {
            let piece = match self.argv[i].write() {
                Ok(v) => v,
                Err(e) => {
                    proof {
                        assert(self@.argv[i as int] == self.argv@[i as int]@);
                        assert(!buffer_wf(self@.argv[i as int]));
                    }
                    return Err(e);
                },
            };
            append_bytes(&mut out, piece.as_slice());
            proof {
                assert(self@.argv[i as int] == self.argv@[i as int]@);
                lemma_argv_bytes_take_succ(self@.argv, i as int);
            }
            i = i + 1;
        }
        proof {
            assert(self@.argv.take(self.argv@.len() as int) =~= self@.argv);
        }
        Ok(out)
    }
}

/// Appending one more buffer to the encoded prefix extends the encoding by
/// that buffer's bytes.
proof fn lemma_argv_bytes_take_succ(argv: Seq<BufferView>, i: int)
    requires
        0 <= i < argv.len(),
    ensures
        argv_bytes(argv.take(i + 1)) == argv_bytes(argv.take(i)) + buffer_bytes(argv[i]),
    decreases i,
{
    if i == 0 {
        assert(argv.take(1).first() == argv[0]);
        assert(argv.take(1).drop_first() =~= Seq::empty());
        assert(argv.take(0) =~= Seq::<BufferView>::empty());
        assert(argv_bytes(argv.take(0)) + buffer_bytes(argv[0]) =~= buffer_bytes(argv[0])
            + Seq::empty());
    } else {
        lemma_argv_bytes_take_succ(argv.drop_first(), i - 1);
        assert(argv.take(i + 1).first() == argv.first());
        assert(argv.take(i + 1).drop_first() =~= argv.drop_first().take(i));
        assert(argv.take(i).first() == argv.first());
        assert(argv.take(i).drop_first() =~= argv.drop_first().take(i - 1));
        assert(argv.drop_first()[i - 1] == argv[i]);
        assert(buffer_bytes(argv.first()) + (argv_bytes(argv.drop_first().take(i - 1))
            + buffer_bytes(argv[i])) =~= (buffer_bytes(argv.first()) + argv_bytes(
            argv.drop_first().take(i - 1),
        )) + buffer_bytes(argv[i]));
    }
}

/// A successful parse of `n` buffers followed by one more successful buffer
/// parse is a successful parse of `n + 1` buffers.
proof fn lemma_parse_argv_at_push(bytes: Seq<u8>, pos: int, n: nat, b: BufferView, q: int)
    requires
        parse_argv_at(bytes, pos, n) matches Some(p) && parse_buffer_at(bytes, p.1) == Some(
            (b, q),
        ),
    ensures
        parse_argv_at(bytes, pos, (n + 1) as nat) matches Some(r) && r.0 == parse_argv_at(
            bytes,
            pos,
            n,
        )->Some_0.0.push(b) && r.1 == q,
    decreases n,
{
    let (pre, mid) = parse_argv_at(bytes, pos, n)->Some_0;
    if n == 0 {
        assert(parse_argv_at(bytes, q, 0) == Some((Seq::<BufferView>::empty(), q)));
        assert(seq![b] + Seq::<BufferView>::empty() =~= pre.push(b));
    } else {
        let (b0, p0) = parse_buffer_at(bytes, pos)->Some_0;
        lemma_parse_argv_at_push(bytes, p0, (n - 1) as nat, b, q);
        let rest = parse_argv_at(bytes, p0, (n - 1) as nat)->Some_0.0;
        assert(seq![b0] + rest.push(b) =~= (seq![b0] + rest).push(b));
    }
}

/// If `n` buffers parse but the next one does not, then no larger count can
/// parse from the same position.
proof fn lemma_parse_argv_at_fails(bytes: Seq<u8>, pos: int, n: nat, m: nat)
    requires
        n < m,
        parse_argv_at(bytes, pos, n) matches Some(p) && parse_buffer_at(bytes, p.1) is None,
    ensures
        parse_argv_at(bytes, pos, m) is None,
    decreases n,
{
    if n == 0 {
    } else {
        let (b0, p0) = parse_buffer_at(bytes, pos)->Some_0;
        lemma_parse_argv_at_fails(bytes, p0, (n - 1) as nat, (m - 1) as nat);
    }
}

/// A window inside an equal subrange agrees with the same window of the
/// reference sequence.
proof fn lemma_subrange_window(bytes: Seq<u8>, pos: int, enc: Seq<u8>, lo: int, hi: int)
    requires
        0 <= pos,
        pos + enc.len() <= bytes.len(),
        bytes.subrange(pos, pos + enc.len() as int) == enc,
        0 <= lo <= hi <= enc.len(),
    ensures
        bytes.subrange(pos + lo, pos + hi) == enc.subrange(lo, hi),
{
    assert forall|j: int| 0 <= j < hi - lo implies bytes.subrange(pos + lo, pos + hi)[j]
        == enc.subrange(lo, hi)[j] by {
        assert(bytes.subrange(pos, pos + enc.len() as int)[lo + j] == bytes[pos + lo + j]);
    }
    assert(bytes.subrange(pos + lo, pos + hi) =~= enc.subrange(lo, hi));
}

/// Decoding an encoded buffer embedded in a larger byte sequence yields the
/// original buffer and stops exactly past its encoding.
pub proof fn lemma_parse_encoded_buffer(bytes: Seq<u8>, pos: int, b: BufferView)
    requires
        buffer_wf(b),
        0 <= pos,
        pos + buffer_bytes(b).len() <= bytes.len(),
        bytes.subrange(pos, pos + buffer_bytes(b).len() as int) == buffer_bytes(b),
    ensures
        parse_buffer_at(bytes, pos) == Some((b, pos + buffer_bytes(b).len())),
{
    lemma_auto_spec_u32_to_from_le_bytes();
    let enc = buffer_bytes(b);
    assert(enc.len() == 4 + b.data.len());
    lemma_subrange_window(bytes, pos, enc, 0, 4);
    assert(enc.subrange(0, 4) =~= spec_u32_to_le_bytes(b.len));
    assert(parse_u32_at(bytes, pos) == Some((b.len, pos + 4)));
    lemma_subrange_window(bytes, pos, enc, 4, enc.len() as int);
    assert(enc.subrange(4, enc.len() as int) =~= b.data);
    assert(bytes.subrange(pos + 4, pos + 4 + b.len) == bytes.subrange(pos + 4, pos + enc.len()));
}

/// Round trip for a single buffer: parsing the encoding of any well-formed
/// buffer yields that buffer and consumes every encoded byte.
pub proof fn lemma_buffer_round_trip(b: BufferView)
    requires
        buffer_wf(b),
    ensures
        parse_buffer_at(buffer_bytes(b), 0) == Some((b, buffer_bytes(b).len() as int)),
{
    assert(buffer_bytes(b).subrange(0, buffer_bytes(b).len() as int) =~= buffer_bytes(b));
    lemma_parse_encoded_buffer(buffer_bytes(b), 0, b);
}

/// Decoding an encoded buffer sequence embedded in a larger byte sequence
/// yields the original buffers.
proof fn lemma_parse_encoded_argv(bytes: Seq<u8>, pos: int, argv: Seq<BufferView>)
    requires
        forall|i: int| 0 <= i < argv.len() ==> buffer_wf(#[trigger] argv[i]),
        0 <= pos,
        pos + argv_bytes(argv).len() <= bytes.len(),
        bytes.subrange(pos, pos + argv_bytes(argv).len() as int) == argv_bytes(argv),
    ensures
        parse_argv_at(bytes, pos, argv.len()) == Some((argv, pos + argv_bytes(argv).len())),
    decreases argv.len(),
{
    if argv.len() == 0 {
    } else {
        let head = argv.first();
        let tail = argv.drop_first();
        let enc = argv_bytes(argv);
        let head_len = buffer_bytes(head).len() as int;
        assert(enc == buffer_bytes(head) + argv_bytes(tail));
        lemma_subrange_window(bytes, pos, enc, 0, head_len);
        assert(enc.subrange(0, head_len) =~= buffer_bytes(head));
        lemma_parse_encoded_buffer(bytes, pos, head);
        lemma_subrange_window(bytes, pos, enc, head_len, enc.len() as int);
        assert(enc.subrange(head_len, enc.len() as int) =~= argv_bytes(tail));
        lemma_parse_encoded_argv(bytes, pos + head_len, tail);
        assert(seq![head] + tail =~= argv);
    }
}

/// Round trip for a request envelope: parsing the encoding of any well-formed
/// request yields that request and consumes every encoded byte.
pub proof fn lemma_request_round_trip(r: RequestView)
    requires
        request_wf(r),
    ensures
        parse_request_at(request_bytes(r), 0) == Some((r, request_bytes(r).len() as int)),
{
    lemma_auto_spec_u32_to_from_le_bytes();
    let enc = request_bytes(r);
    let key_bytes = spec_u32_to_le_bytes(r.key);
    let argc_bytes = spec_u32_to_le_bytes(r.argc);
    assert(enc.subrange(0, 4) =~= key_bytes);
    assert(parse_u32_at(enc, 0) == Some((r.key, 4int)));
    assert(enc.subrange(4, 8) =~= argc_bytes);
    assert(parse_u32_at(enc, 4) == Some((r.argc, 8int)));
    assert(enc.subrange(8, 8 + argv_bytes(r.argv).len() as int) =~= argv_bytes(r.argv));
    lemma_parse_encoded_argv(enc, 8, r.argv);
}

} // verus!
