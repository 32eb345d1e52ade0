//! Datagrams over a stream: each frame holds the length of a host name, the host name, a port, the
//! length of the payload and the payload. Numbers are in network order.
use crate::bytes::{be16, be32, extend, from_be16, from_be32, push_be16, push_be32, read_be16, read_be32};
use std::string::FromUtf8Error;
use vstd::prelude::*;
use vstd::utf8::{decode_utf8, encode_utf8, valid_utf8};

verus! {

/// The largest length of a host name in a frame.
pub const MAX_HOSTNAME_LEN: usize = 255;

/// What the standard library reports of bytes that are not UTF-8.
#[verifier::external_type_specification]
#[verifier::external_body]
pub struct ExFromUtf8Error(FromUtf8Error);

/// `String::from_utf8` of the standard library: the text that the bytes encode, where they are
/// UTF-8.
pub assume_specification[ String::from_utf8 ](vec: Vec<u8>) -> (r: Result<String, FromUtf8Error>)
    ensures
        match r {
            Ok(s) => valid_utf8(vec@) && s@ == decode_utf8(vec@),
            Err(_) => !valid_utf8(vec@),
        },
;

/// What is wrong with a frame.
#[derive(Debug, Clone, Copy, PartialEq, Eq, Structural)]
pub enum FrameError {
    /// There is nothing to read a header from.
    EmptyPacket,
    /// There are fewer bytes than the header has.
    HeaderTooShort { expected: usize, got: usize },
    /// The host name is not UTF-8.
    InvalidHostname,
    /// The stream ends within the frame.
    UnexpectedEof,
}

/// The destination or the origin of a datagram, and the length of its payload.
#[derive(Debug)]
pub struct DatagramHeader {
    pub hostname: String,
    pub port: u16,
    pub payload_len: u32,
}

impl Clone for DatagramHeader {
    fn clone(&self) -> (r: Self)
        ensures
            r == *self,
    {
        DatagramHeader {
            hostname: self.hostname.clone(),
            port: self.port,
            payload_len: self.payload_len,
        }
    }
}

/// What a header says.
pub struct HeaderView {
    pub hostname: Seq<char>,
    pub port: u16,
    pub payload_len: u32,
}

impl View for DatagramHeader {
    type V = HeaderView;

    open spec fn view(&self) -> HeaderView {
        HeaderView { hostname: self.hostname@, port: self.port, payload_len: self.payload_len }
    }
}

/// As much of a host name as a frame has room for.
pub open spec fn framed_hostname(hostname: Seq<char>) -> Seq<u8> {
    let bytes = encode_utf8(hostname);
    if bytes.len() > MAX_HOSTNAME_LEN {
        bytes.take(MAX_HOSTNAME_LEN as int)
    } else {
        bytes
    }
}

/// The bytes of a header.
pub open spec fn header_bytes(h: HeaderView) -> Seq<u8> {
    seq![framed_hostname(h.hostname).len() as u8] + framed_hostname(h.hostname) + be16(h.port)
        + be32(h.payload_len)
}

/// The length of the header that starts with the given bytes.
pub open spec fn header_len(data: Seq<u8>) -> int {
    7 + data[0]
}

/// The header that starts with the given bytes, which are at least as many as it has.
pub open spec fn header_at(data: Seq<u8>) -> HeaderView {
    let n = data[0] as int;
    HeaderView {
        hostname: decode_utf8(data.subrange(1, 1 + n)),
        port: from_be16(data.subrange(1 + n, 3 + n)),
        payload_len: from_be32(data.subrange(3 + n, 7 + n)),
    }
}

/// The header at the start of a packet, or what is wrong with it.
pub open spec fn parse_header(data: Seq<u8>) -> Result<HeaderView, FrameError> {
    if data.len() == 0 {
        Err(FrameError::EmptyPacket)
    } else if data.len() < header_len(data) {
        Err(
            FrameError::HeaderTooShort {
                expected: header_len(data) as usize,
                got: data.len() as usize,
            },
        )
    } else if !valid_utf8(data.subrange(1, 1 + data[0])) {
        Err(FrameError::InvalidHostname)
    } else {
        Ok(header_at(data))
    }
}

/// The length of the frame that starts with the given bytes.
pub open spec fn frame_len(data: Seq<u8>) -> int {
    header_len(data) + header_at(data).payload_len
}

/// The frame at the start of a stream, or what is wrong with it. A host name that is not UTF-8 is
/// noticed before anything that follows it.
pub open spec fn parse_frame(data: Seq<u8>) -> Result<(HeaderView, Seq<u8>), FrameError> {
    if data.len() == 0 || data.len() < 1 + data[0] {
        Err(FrameError::UnexpectedEof)
    } else if !valid_utf8(data.subrange(1, 1 + data[0])) {
        Err(FrameError::InvalidHostname)
    } else if data.len() < header_len(data) || data.len() < frame_len(data) {
        Err(FrameError::UnexpectedEof)
    } else {
        Ok((header_at(data), data.subrange(header_len(data), frame_len(data))))
    }
}

/// How many bytes of a stream are used up by reading a frame, whether it is found or not.
pub open spec fn frame_consumed(data: Seq<u8>) -> int {
    match parse_frame(data) {
        Ok(_) => frame_len(data),
        Err(FrameError::InvalidHostname) => 1 + data[0],
        Err(_) => data.len() as int,
    }
}

impl DatagramHeader {
    /// The size of a frame with this header: seven bytes, as much of the host name as a frame has
    /// room for, and the payload.
    pub fn frame_size(&self) -> (r: usize)
        requires
            header_bytes(self@).len() + self.payload_len <= usize::MAX,
        ensures
            r == header_bytes(self@).len() + self.payload_len,
    {
        let hostname: &[u8] = self.hostname.as_str().as_bytes();
        let len: usize = if hostname.len() > MAX_HOSTNAME_LEN {
            MAX_HOSTNAME_LEN
        } else {
            hostname.len()
        };
        7 + len + self.payload_len as usize
    }

    /// The bytes of the header. A host name that does not fit is cut off.
    pub fn to_bytes(&self) -> (r: Vec<u8>)
        ensures
            r@ == header_bytes(self@),
    {
        let hostname: &[u8] = self.hostname.as_str().as_bytes();
        let len: usize = if hostname.len() > MAX_HOSTNAME_LEN {
            MAX_HOSTNAME_LEN
        } else {
            hostname.len()
        };
        assert(hostname@.subrange(0, len as int) =~= framed_hostname(self.hostname@));
        let mut buf: Vec<u8> = Vec::new();
        buf.push(len as u8);
        extend(&mut buf, hostname, 0, len);
        push_be16(&mut buf, self.port);
        push_be32(&mut buf, self.payload_len);
        assert(buf@ =~= header_bytes(self@));
        buf
    }

    /// Reads the header at the start of a packet, and how long it is.
    pub fn from_bytes(data: &[u8]) -> (r: Result<(DatagramHeader, usize), FrameError>)
        ensures
            match r {
                Ok((h, size)) => parse_header(data@) == Ok::<_, FrameError>(h@) && size
                    == header_len(data@),
                Err(e) => parse_header(data@) == Err::<HeaderView, _>(e),
            },
    {
        if data.len() == 0 {
            return Err(FrameError::EmptyPacket);
        }
        let hostname_len: usize = data[0] as usize;
        let header_size: usize = 7 + hostname_len;
        if data.len() < header_size {
            return Err(FrameError::HeaderTooShort { expected: header_size, got: data.len() });
        }
        let mut bytes: Vec<u8> = Vec::new();
        extend(&mut bytes, data, 1, 1 + hostname_len);
        assert(bytes@ =~= data@.subrange(1, 1 + hostname_len));
        let hostname: String = match String::from_utf8(bytes) {
            Ok(s) => s,
            Err(_) => {
                return Err(FrameError::InvalidHostname);
            },
        };
        let port: u16 = read_be16(data, 1 + hostname_len);
        let payload_len: u32 = read_be32(data, 3 + hostname_len);
        Ok((DatagramHeader { hostname, port, payload_len }, header_size))
    }

    /// Reads a frame.
    pub fn read_from_stream(reader: &mut ByteReader) -> (r: Result<
        (DatagramHeader, Vec<u8>),
        FrameError,
    >)
        ensures
            match r {
                Ok((h, payload)) => parse_frame(old(reader)@) == Ok::<_, FrameError>(
                    (h@, payload@),
                ),
                Err(e) => parse_frame(old(reader)@) == Err::<(HeaderView, Seq<u8>), _>(e),
            },
            final(reader)@ == old(reader)@.skip(frame_consumed(old(reader)@)),
    {
        let ghost all = reader@;
        let mut state: FrameReader = FrameReader::new();
        let ghost mut used: Seq<u8> = Seq::empty();
        assert(reader@ =~= all.skip(0));
        loop
            invariant
                all == old(reader)@,
                state.has_read(used),
                used.len() <= all.len(),
                used == all.take(used.len() as int),
                reader@ == all.skip(used.len() as int),
            decreases 5 - state.stage(),
        {
            let wanted: usize = state.wanted();
            let data: Vec<u8> = match reader.read_exact(wanted) {
                Some(d) => d,
                None => {
                    proof {
                        lemma_starved(state, used, all);
                        assert(reader@ =~= all.skip(all.len() as int));
                    }
                    return Err(FrameError::UnexpectedEof);
                },
            };
            let ghost before = used;
            proof {
                used = used + data@;
                assert(used =~= all.take(used.len() as int));
                assert(reader@ =~= all.skip(used.len() as int));
            }
            match state.feed(data) {
                Ok(FrameStep::More(next)) => {
                    state = next;
                },
                Ok(FrameStep::Done(header, payload)) => {
                    proof {
                        lemma_parse_prefix(used, all);
                    }
                    return Ok((header, payload));
                },
                Err(e) => {
                    proof {
                        lemma_parse_prefix(used, all);
                    }
                    return Err(e);
                },
            }
        }
    }

    /// Writes a frame: the header and the given payload.
    pub fn write_to_stream(&self, writer: &mut Vec<u8>, payload: &[u8]) -> (r: Result<
        (),
        FrameError,
    >)
        ensures
            r is Ok,
            final(writer)@ == old(writer)@ + header_bytes(self@) + payload@,
    {
        let header: Vec<u8> = self.to_bytes();
        extend(writer, header.as_slice(), 0, header.len());
        extend(writer, payload, 0, payload.len());
        assert(writer@ =~= old(writer)@ + header_bytes(self@) + payload@);
        Ok(())
    }
}

/// Bytes that are read one after the other.
#[derive(Debug)]
pub struct ByteReader {
    data: Vec<u8>,
    position: usize,
}

impl View for ByteReader {
    type V = Seq<u8>;

    /// The bytes that are still to be read.
    closed spec fn view(&self) -> Seq<u8> {
        self.data@.skip(self.position as int)
    }
}

impl ByteReader {
    #[verifier::type_invariant]
    closed spec fn inv(self) -> bool {
        self.position <= self.data@.len()
    }

    /// A reader of the given bytes.
    pub fn new(data: Vec<u8>) -> (r: ByteReader)
        ensures
            r@ == data@,
    {
        let r = ByteReader { data, position: 0 };
        assert(r@ =~= data@);
        r
    }

    /// How many bytes are still to be read.
    pub fn remaining(&self) -> (r: usize)
        ensures
            r == self@.len(),
    {
        proof {
            use_type_invariant(self);
        }
        self.data.len() - self.position
    }

    /// Reads the given number of bytes; where there are fewer, those are lost and nothing is read.
    pub fn read_exact(&mut self, n: usize) -> (r: Option<Vec<u8>>)
        ensures
            match r {
                Some(v) => n <= old(self)@.len() && v@ == old(self)@.take(n as int) && final(self)@
                    == old(self)@.skip(n as int),
                None => n > old(self)@.len() && final(self)@ == Seq::<u8>::empty(),
            },
    {
        proof {
            use_type_invariant(&*self);
        }
        let left: usize = self.data.len() - self.position;
        if n > left {
            self.position = self.data.len();
            assert(self@ =~= Seq::<u8>::empty());
            return None;
        }
        let mut out: Vec<u8> = Vec::new();
        extend(&mut out, self.data.as_slice(), self.position, self.position + n);
        assert(out@ =~= old(self)@.take(n as int));
        self.position = self.position + n;
        assert(self@ =~= old(self)@.skip(n as int));
        Some(out)
    }
}

/// The part of a frame that is read next.
#[derive(Debug)]
enum Part {
    HostnameLen,
    Hostname { len: u8 },
    Port { hostname: String },
    PayloadLen { hostname: String, port: u16 },
    Payload { hostname: String, port: u16, payload_len: u32 },
}

/// A frame that is being read part by part.
#[derive(Debug)]
pub struct FrameReader {
    part: Part,
}

/// What a part of a frame leads to.
#[derive(Debug)]
pub enum FrameStep {
    /// More is to be read.
    More(FrameReader),
    /// The frame is complete.
    Done(DatagramHeader, Vec<u8>),
}

impl FrameReader {
    /// Whether exactly the given bytes of a frame have been read.
    pub closed spec fn has_read(&self, used: Seq<u8>) -> bool {
        match self.part {
            Part::HostnameLen => used.len() == 0,
            Part::Hostname { len } => used.len() == 1 && used[0] == len,
            Part::Port { hostname } => {
                &&& used.len() > 0
                &&& used.len() == 1 + used[0]
                &&& valid_utf8(used.subrange(1, 1 + used[0]))
                &&& hostname@ == decode_utf8(used.subrange(1, 1 + used[0]))
            },
            Part::PayloadLen { hostname, port } => {
                &&& used.len() > 0
                &&& used.len() == 3 + used[0]
                &&& valid_utf8(used.subrange(1, 1 + used[0]))
                &&& hostname@ == decode_utf8(used.subrange(1, 1 + used[0]))
                &&& port == from_be16(used.subrange(1 + used[0], 3 + used[0]))
            },
            Part::Payload { hostname, port, payload_len } => {
                &&& used.len() > 0
                &&& used.len() == 7 + used[0]
                &&& valid_utf8(used.subrange(1, 1 + used[0]))
                &&& header_at(used) == (HeaderView { hostname: hostname@, port, payload_len })
            },
        }
    }

    /// How many parts have been read.
    pub closed spec fn stage(&self) -> int {
        match self.part {
            Part::HostnameLen => 0,
            Part::Hostname { .. } => 1,
            Part::Port { .. } => 2,
            Part::PayloadLen { .. } => 3,
            Part::Payload { .. } => 4,
        }
    }

    /// How many bytes the next part has.
    pub closed spec fn spec_wanted(&self) -> usize {
        match self.part {
            Part::HostnameLen => 1,
            Part::Hostname { len } => len as usize,
            Part::Port { .. } => 2,
            Part::PayloadLen { .. } => 4,
            Part::Payload { payload_len, .. } => payload_len as usize,
        }
    }

    /// A reader that has read nothing of a frame.
    pub fn new() -> (r: FrameReader)
        ensures
            r.has_read(Seq::empty()),
            r.stage() == 0,
    {
        FrameReader { part: Part::HostnameLen }
    }

    /// How many bytes the next part has.
    pub fn wanted(&self) -> (r: usize)
        ensures
            r == self.spec_wanted(),
    {
        match &self.part {
            Part::HostnameLen => 1,
            Part::Hostname { len } => *len as usize,
            Part::Port { .. } => 2,
            Part::PayloadLen { .. } => 4,
            Part::Payload { payload_len, .. } => *payload_len as usize,
        }
    }

    /// Takes the next part. Where `used` are the bytes of the frame before it, what comes out is
    /// what those bytes and the part amount to.
    pub fn feed(self, data: Vec<u8>) -> (r: Result<FrameStep, FrameError>)
        requires
            data@.len() == self.spec_wanted(),
        ensures
            forall|used: Seq<u8>| #[trigger]
                self.has_read(used) ==> match r {
                    Ok(FrameStep::More(next)) => next.has_read(used + data@) && next.stage()
                        == self.stage() + 1,
                    Ok(FrameStep::Done(h, payload)) => parse_frame(used + data@) == Ok::<
                        _,
                        FrameError,
                    >((h@, payload@)) && frame_len(used + data@) == (used + data@).len(),
                    Err(e) => e == FrameError::InvalidHostname && parse_frame(used + data@) == Err::<
                        (HeaderView, Seq<u8>),
                        _,
                    >(e) && frame_consumed(used + data@) == (used + data@).len(),
                },
    {
        match self.part {
            Part::HostnameLen => {
                let len: u8 = data[0];
                let next = FrameReader { part: Part::Hostname { len } };
                Ok(FrameStep::More(next))
            },
            Part::Hostname { len } => {
                let ghost part = data@;
                match String::from_utf8(data) {
                    Ok(hostname) => {
                        let next = FrameReader { part: Part::Port { hostname } };
                        proof {
                            assert forall|used: Seq<u8>| #[trigger]
                                self.has_read(used) implies next.has_read(used + part) by {
                                assert((used + part).subrange(1, 1 + used[0]) =~= part);
                            }
                        }
                        Ok(FrameStep::More(next))
                    },
                    Err(_) => {
                        proof {
                            assert forall|used: Seq<u8>| #[trigger] self.has_read(used) implies (
                            used + part).subrange(1, 1 + used[0]) == part by {
                                assert((used + part).subrange(1, 1 + used[0]) =~= part);
                            }
                        }
                        Err(FrameError::InvalidHostname)
                    },
                }
            },
            Part::Port { hostname } => {
                let port: u16 = read_be16(data.as_slice(), 0);
                let next = FrameReader { part: Part::PayloadLen { hostname, port } };
                proof {
                    assert forall|used: Seq<u8>| #[trigger] self.has_read(used) implies next.has_read(
                        used + data@,
                    ) by {
                        let n = used[0];
                        assert((used + data@).subrange(1, 1 + n) =~= used.subrange(1, 1 + n));
                        assert((used + data@).subrange(1 + n, 3 + n) =~= data@.subrange(0, 2));
                    }
                }
                Ok(FrameStep::More(next))
            },
            Part::PayloadLen { hostname, port } => {
                let payload_len: u32 = read_be32(data.as_slice(), 0);
                let next = FrameReader { part: Part::Payload { hostname, port, payload_len } };
                proof {
                    assert forall|used: Seq<u8>| #[trigger] self.has_read(used) implies next.has_read(
                        used + data@,
                    ) by {
                        let n = used[0];
                        assert((used + data@).subrange(1, 1 + n) =~= used.subrange(1, 1 + n));
                        assert((used + data@).subrange(1 + n, 3 + n) =~= used.subrange(
                            1 + n,
                            3 + n,
                        ));
                        assert((used + data@).subrange(3 + n, 7 + n) =~= data@.subrange(0, 4));
                    }
                }
                Ok(FrameStep::More(next))
            },
            Part::Payload { hostname, port, payload_len } => {
                let header = DatagramHeader { hostname, port, payload_len };
                proof {
                    assert forall|used: Seq<u8>| #[trigger] self.has_read(used) implies parse_frame(
                        used + data@,
                    ) == Ok::<_, FrameError>((header@, data@)) && frame_len(used + data@) == (used
                        + data@).len() by {
                        let n = used[0];
                        let all = used + data@;
                        assert(all.subrange(1, 1 + n) =~= used.subrange(1, 1 + n));
                        assert(all.subrange(1 + n, 3 + n) =~= used.subrange(1 + n, 3 + n));
                        assert(all.subrange(3 + n, 7 + n) =~= used.subrange(3 + n, 7 + n));
                        assert(all.subrange(header_len(all), frame_len(all)) =~= data@);
                    }
                }
                Ok(FrameStep::Done(header, data))
            },
        }
    }
}

/// Where the stream ends within the next part, it ends within the frame.
proof fn lemma_starved(state: FrameReader, used: Seq<u8>, all: Seq<u8>)
    requires
        state.has_read(used),
        used.len() <= all.len(),
        used == all.take(used.len() as int),
        all.len() < used.len() + state.spec_wanted(),
    ensures
        parse_frame(all) == Err::<(HeaderView, Seq<u8>), _>(FrameError::UnexpectedEof),
        frame_consumed(all) == all.len(),
{
    if used.len() > 0 {
        let n = used[0];
        assert(all[0] == n);
        if used.len() >= 1 + n {
            assert(all.subrange(1, 1 + n) =~= used.subrange(1, 1 + n));
        }
        if used.len() >= 7 + n {
            assert(all.subrange(1 + n, 3 + n) =~= used.subrange(1 + n, 3 + n));
            assert(all.subrange(3 + n, 7 + n) =~= used.subrange(3 + n, 7 + n));
        }
    }
}

/// A stream that starts with a whole frame, or with a host name that is not UTF-8, is read alike
/// whatever follows.
proof fn lemma_parse_prefix(used: Seq<u8>, all: Seq<u8>)
    requires
        used.len() <= all.len(),
        used == all.take(used.len() as int),
        match parse_frame(used) {
            Ok(_) => frame_len(used) == used.len(),
            Err(e) => e == FrameError::InvalidHostname,
        },
    ensures
        parse_frame(all) == parse_frame(used),
        frame_consumed(all) == frame_consumed(used),
{
    let n = used[0];
    assert(all[0] == n);
    assert(all.subrange(1, 1 + n) =~= used.subrange(1, 1 + n));
    if parse_frame(used) is Ok {
        assert(all.subrange(1 + n, 3 + n) =~= used.subrange(1 + n, 3 + n));
        assert(all.subrange(3 + n, 7 + n) =~= used.subrange(3 + n, 7 + n));
        assert(all.subrange(header_len(used), frame_len(used)) =~= used.subrange(
            header_len(used),
            frame_len(used),
        ));
    }
}

// ---------------------------------------------------------------------------
// Laws
// ---------------------------------------------------------------------------

proof fn lemma_header_at(h: HeaderView, rest: Seq<u8>)
    requires
        encode_utf8(h.hostname).len() <= MAX_HOSTNAME_LEN,
    ensures
        ({
            let data = header_bytes(h) + rest;
            &&& data.len() > 0
            &&& header_len(data) == header_bytes(h).len()
            &&& valid_utf8(data.subrange(1, 1 + data[0]))
            &&& header_at(data) == h
        }),
{
    let host = encode_utf8(h.hostname);
    let n = host.len() as int;
    let data = header_bytes(h) + rest;
    assert(data[0] == n as u8);
    assert(data.subrange(1, 1 + n) =~= host);
    assert(data.subrange(1 + n, 3 + n) =~= be16(h.port));
    assert(data.subrange(3 + n, 7 + n) =~= be32(h.payload_len));
    vstd::utf8::encode_utf8_valid_utf8(h.hostname);
    vstd::utf8::encode_utf8_decode_utf8(h.hostname);
    crate::bytes::be_round_trip(h.port, h.payload_len);
}

/// Reading the bytes of a header gives that header, whatever follows them, where the host name
/// fits in a frame.
pub proof fn header_reads_back(h: HeaderView, rest: Seq<u8>)
    requires
        encode_utf8(h.hostname).len() <= MAX_HOSTNAME_LEN,
    ensures
        parse_header(header_bytes(h) + rest) == Ok::<_, FrameError>(h),
        header_len(header_bytes(h) + rest) == header_bytes(h).len(),
{
    lemma_header_at(h, rest);
}

/// Reading a frame that was written gives its header and its payload and uses up just that frame,
/// where the host name fits in a frame and the header tells the length of the payload.
pub proof fn frame_reads_back(h: HeaderView, payload: Seq<u8>, rest: Seq<u8>)
    requires
        encode_utf8(h.hostname).len() <= MAX_HOSTNAME_LEN,
        payload.len() == h.payload_len,
    ensures
        parse_frame(header_bytes(h) + payload + rest) == Ok::<_, FrameError>((h, payload)),
        frame_consumed(header_bytes(h) + payload + rest) == (header_bytes(h) + payload).len(),
{
    let data = header_bytes(h) + payload + rest;
    assert(data =~= header_bytes(h) + (payload + rest));
    lemma_header_at(h, payload + rest);
    assert(data.subrange(header_len(data), frame_len(data)) =~= payload);
}

/// A packet whose header can be read is read alike as the start of a stream.
pub proof fn packet_and_stream_agree(data: Seq<u8>)
    requires
        parse_frame(data) is Ok,
    ensures
        parse_header(data) == Ok::<_, FrameError>(parse_frame(data)->Ok_0.0),
{
}

/// A header takes no more room than a frame has for it.
pub proof fn header_size_is_bounded(h: HeaderView)
    ensures
        7 <= header_bytes(h).len() <= 7 + MAX_HOSTNAME_LEN,
{
}

/// A header is laid out as one byte with the length of the host name, the host name, two bytes of
/// port and four bytes of payload length, both numbers with the most significant byte first. A host
/// name of more than 255 bytes is cut off behind the 255th.
pub proof fn headers_are_laid_out(h: HeaderView)
    ensures
        ({
            let b = header_bytes(h);
            let name = encode_utf8(h.hostname);
            let n = if name.len() <= 255 {
                name.len() as int
            } else {
                255
            };
            &&& b.len() == 7 + n
            &&& b[0] == n
            &&& b.subrange(1, 1 + n) == name.take(n)
            &&& b[1 + n] * 0x100 + b[2 + n] == h.port
            &&& b[3 + n] * 0x100_0000 + b[4 + n] * 0x1_0000 + b[5 + n] * 0x100 + b[6 + n]
                == h.payload_len
        }),
{
    let b = header_bytes(h);
    let name = encode_utf8(h.hostname);
    let n = if name.len() <= 255 {
        name.len() as int
    } else {
        255
    };
    assert(framed_hostname(h.hostname) =~= name.take(n));
    assert(b.subrange(1, 1 + n) =~= name.take(n));
    crate::bytes::bytes_are_ordered(h.port, h.payload_len);
    assert(b[1 + n] == be16(h.port)[0] && b[2 + n] == be16(h.port)[1]);
    assert(b[3 + n] == be32(h.payload_len)[0] && b[4 + n] == be32(h.payload_len)[1]);
    assert(b[5 + n] == be32(h.payload_len)[2] && b[6 + n] == be32(h.payload_len)[3]);
}

/// A packet is read as a header exactly where it has the seven bytes of numbers and as many bytes of
/// host name as its first byte tells, and these are UTF-8; the numbers have their most significant
/// byte first. Otherwise the first thing that is wrong is told, and how many bytes are missing.
pub proof fn packets_are_read_by_their_layout(data: Seq<u8>)
    requires
        data.len() <= usize::MAX,
    ensures
        ({
            let r = parse_header(data);
            let n = data[0] as int;
            &&& data.len() == 0 ==> r == Err::<HeaderView, _>(FrameError::EmptyPacket)
            &&& 0 < data.len() < 7 + n ==> (r matches Err(FrameError::HeaderTooShort {
                expected,
                got,
            }) && expected == 7 + n && got == data.len())
            &&& data.len() > 0 && data.len() >= 7 + n && !valid_utf8(data.subrange(1, 1 + n))
                ==> r == Err::<HeaderView, _>(FrameError::InvalidHostname)
            &&& data.len() > 0 && data.len() >= 7 + n && valid_utf8(data.subrange(1, 1 + n)) ==> (
            r matches Ok(h) && h.hostname == decode_utf8(data.subrange(1, 1 + n)) && h.port
                == data[1 + n] * 0x100 + data[2 + n] && h.payload_len == data[3 + n] * 0x100_0000
                + data[4 + n] * 0x1_0000 + data[5 + n] * 0x100 + data[6 + n])
        }),
{
    if data.len() > 0 && data.len() >= 7 + data[0] {
        let n = data[0] as int;
        crate::bytes::bytes_denote_their_sum(data.subrange(1 + n, 3 + n));
        crate::bytes::bytes_denote_their_sum(data.subrange(3 + n, 7 + n));
    }
}

/// A frame is read exactly where its header can be read and as many bytes follow as it tells; they
/// are its payload, and nothing behind them is used up. Where the stream ends before, all of it is
/// used up, and where the host name is not UTF-8, it and its length are.
pub proof fn frames_are_read_by_their_layout(data: Seq<u8>)
    ensures
        ({
            let r = parse_frame(data);
            let n = data[0] as int;
            let whole_name = data.len() > 0 && data.len() >= 1 + n;
            let proper_name = whole_name && valid_utf8(data.subrange(1, 1 + n));
            let told = data[3 + n] * 0x100_0000 + data[4 + n] * 0x1_0000 + data[5 + n] * 0x100
                + data[6 + n];
            let whole = proper_name && data.len() >= 7 + n && data.len() >= 7 + n + told;
            &&& whole ==> (r matches Ok((h, payload)) && h.payload_len == told && h.port == data[1
                + n] * 0x100 + data[2 + n] && h.hostname == decode_utf8(data.subrange(1, 1 + n))
                && payload == data.subrange(7 + n, 7 + n + told) && frame_consumed(data) == 7 + n
                + told)
            &&& whole_name && !proper_name ==> r == Err::<(HeaderView, Seq<u8>), _>(
                FrameError::InvalidHostname,
            ) && frame_consumed(data) == 1 + n
            &&& !whole && (proper_name || !whole_name) ==> r == Err::<(HeaderView, Seq<u8>), _>(
                FrameError::UnexpectedEof,
            ) && frame_consumed(data) == data.len()
        }),
{
    if data.len() > 0 && data.len() >= 7 + data[0] {
        let n = data[0] as int;
        crate::bytes::bytes_denote_their_sum(data.subrange(1 + n, 3 + n));
        crate::bytes::bytes_denote_their_sum(data.subrange(3 + n, 7 + n));
    }
}

/// What is said of a header is what it holds, and its length is told by its first byte.
pub proof fn nothing_is_left_out_of_a_header(h: DatagramHeader, data: Seq<u8>)
    ensures
        h@.hostname == h.hostname@,
        h@.port == h.port,
        h@.payload_len == h.payload_len,
        header_len(data) == 7 + data[0],
{
}

} // verus!
