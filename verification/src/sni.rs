//! Sniffer for the server name that a TLS ClientHello announces, which is the
//! routing key on a shared TLS port.

use crate::text::{bytes_left, decode_text, opt_view, utf8_text};
use vstd::prelude::*;
use vstd::slice::slice_subrange;

verus! {

/// Bytes in front of the session id: the record header (5), the handshake
/// header (4), the client version (2) and the random (32).
pub const CLIENT_HELLO_FIXED_PREFIX: usize = 43;

/// Content type of a TLS handshake record.
pub const TLS_HANDSHAKE: u8 = 0x16;

/// The big-endian 16-bit number at `pos`.
pub open spec fn be16(buf: Seq<u8>, pos: int) -> int {
    buf[pos] as int * 256 + buf[pos + 1] as int
}

/// The position behind a block that starts at `pos` with its length in one
/// byte; `None` if the length byte is not there yet.
pub open spec fn after_block8(buf: Seq<u8>, pos: int) -> Option<int> {
    if pos + 1 <= buf.len() {
        Some(pos + 1 + buf[pos] as int)
    } else {
        None
    }
}

/// The position behind a block that starts at `pos` with its length in two
/// bytes; `None` if the length is not there yet.
pub open spec fn after_block16(buf: Seq<u8>, pos: int) -> Option<int> {
    if pos + 2 <= buf.len() {
        Some(pos + 2 + be16(buf, pos))
    } else {
        None
    }
}

/// Where the extensions of the ClientHello in `buf` start and where their
/// announced length ends: behind the fixed prefix, the session id, the cipher
/// suites and the compression methods.
pub open spec fn extensions_block(buf: Seq<u8>) -> Option<(int, int)> {
    if buf.len() < CLIENT_HELLO_FIXED_PREFIX || buf[0] != TLS_HANDSHAKE {
        None
    } else {
        match after_block8(buf, CLIENT_HELLO_FIXED_PREFIX as int) {
            None => None,
            Some(ciphers) => match after_block16(buf, ciphers) {
                None => None,
                Some(compression) => match after_block8(buf, compression) {
                    None => None,
                    Some(ext_len_at) => if ext_len_at + 2 <= buf.len() {
                        Some((ext_len_at + 2, ext_len_at + 2 + be16(buf, ext_len_at)))
                    } else {
                        None
                    },
                },
            },
        }
    }
}

/// Where the announced length of the extensions ends.
pub open spec fn extensions_end(buf: Seq<u8>) -> int {
    match extensions_block(buf) {
        Some((_, end)) => end,
        None => 0,
    }
}

/// Walks the extensions `{type: u16, len: u16, body}` from `pos` and gives
/// the position of the body of the first `server_name` extension (type 0).
pub open spec fn server_name_extension(buf: Seq<u8>, pos: int, end: int) -> Option<int>
    decreases bytes_left(buf, pos),
{
    if 0 <= pos && pos + 4 <= end && pos + 4 <= buf.len() {
        if be16(buf, pos) == 0 {
            Some(pos + 4)
        } else {
            server_name_extension(buf, pos + 4 + be16(buf, pos + 2), end)
        }
    } else {
        None
    }
}

/// Walks the entries `{name_type: u8, name_len: u16, name}` of a server name
/// list from `pos` and gives the name of the first entry of type 0
/// (host_name), if the buffer holds all of it.
pub open spec fn first_host_name(buf: Seq<u8>, pos: int, end: int) -> Option<Seq<u8>>
    decreases bytes_left(buf, pos),
{
    if 0 <= pos && pos + 3 <= end && pos + 3 <= buf.len() {
        let name_len = be16(buf, pos + 1);
        if buf[pos] == 0 {
            if pos + 3 + name_len <= buf.len() {
                Some(buf.subrange(pos + 3, pos + 3 + name_len))
            } else {
                None
            }
        } else {
            first_host_name(buf, pos + 3 + name_len, end)
        }
    } else {
        None
    }
}

/// The bytes of the host name in the `server_name` extension whose body
/// starts at `body`: the list length, then the entries.
pub open spec fn host_name_in_extension(buf: Seq<u8>, body: int) -> Option<Seq<u8>> {
    if body + 2 <= buf.len() {
        first_host_name(buf, body + 2, body + 2 + be16(buf, body))
    } else {
        None
    }
}

/// The bytes of the host name that the ClientHello in `buf` announces, if
/// `buf` holds enough of the hello to read it.
pub open spec fn sni_name_bytes(buf: Seq<u8>) -> Option<Seq<u8>> {
    match extensions_block(buf) {
        None => None,
        Some((start, end)) => match server_name_extension(buf, start, end) {
            None => None,
            Some(body) => host_name_in_extension(buf, body),
        },
    }
}

/// The host name that the ClientHello in `buf` announces, as text.
pub open spec fn sni_hostname(buf: Seq<u8>) -> Option<Seq<char>> {
    match sni_name_bytes(buf) {
        None => None,
        Some(name) => utf8_text(name),
    }
}

/// Appending bytes does not change which `server_name` extension is found.
proof fn lemma_server_name_extension_stable(buf: Seq<u8>, more: Seq<u8>, pos: int, end: int)
    requires
        server_name_extension(buf, pos, end) is Some,
    ensures
        server_name_extension(buf + more, pos, end) == server_name_extension(buf, pos, end),
        0 <= server_name_extension(buf, pos, end)->0 <= buf.len(),
    decreases bytes_left(buf, pos),
{
    if be16(buf, pos) != 0 {
        lemma_server_name_extension_stable(buf, more, pos + 4 + be16(buf, pos + 2), end);
    }
}

/// Appending bytes does not change the first host name of a list.
proof fn lemma_first_host_name_stable(buf: Seq<u8>, more: Seq<u8>, pos: int, end: int)
    requires
        first_host_name(buf, pos, end) is Some,
    ensures
        first_host_name(buf + more, pos, end) == first_host_name(buf, pos, end),
    decreases bytes_left(buf, pos),
{
    let ext = buf + more;
    let name_len = be16(buf, pos + 1);
    if buf[pos] == 0 {
        assert(ext.subrange(pos + 3, pos + 3 + name_len) =~= buf.subrange(
            pos + 3,
            pos + 3 + name_len,
        ));
    } else {
        lemma_first_host_name_stable(buf, more, pos + 3 + name_len, end);
    }
}

/// Once a buffer shows the announced host name, no byte that arrives later
/// changes it.
pub proof fn lemma_sni_stable(buf: Seq<u8>, more: Seq<u8>)
    requires
        sni_name_bytes(buf) is Some,
    ensures
        sni_name_bytes(buf + more) == sni_name_bytes(buf),
        sni_hostname(buf + more) == sni_hostname(buf),
{
    let (start, end) = extensions_block(buf)->0;
    lemma_server_name_extension_stable(buf, more, start, end);
    let body = server_name_extension(buf, start, end)->0;
    lemma_first_host_name_stable(buf, more, body + 2, body + 2 + be16(buf, body));
}

/// Reads the big-endian 16-bit number at `pos`.
fn read_be16(buf: &[u8], pos: usize) -> (v: usize)
    requires
        pos + 2 <= buf@.len(),
    ensures
        v == be16(buf@, pos as int),
        v <= 65535,
{
    let hi: usize = buf[pos] as usize;
    let lo: usize = buf[pos + 1] as usize;
    hi * 256 + lo
}

/// Finds where the extensions start and where they end, the end cut off at
/// the end of the buffer.
fn locate_extensions(buf: &[u8]) -> (res: Option<(usize, usize)>)
    ensures
        match res {
            Some((start, limit)) => match extensions_block(buf@) {
                Some((s, e)) => {
                    &&& start == s
                    &&& start <= buf@.len()
                    &&& limit <= buf@.len()
                    &&& limit == if e <= buf@.len() {
                        e
                    } else {
                        buf@.len() as int
                    }
                },
                None => false,
            },
            None => extensions_block(buf@) is None,
        },
{
    let len: usize = buf.len();
    if len < CLIENT_HELLO_FIXED_PREFIX {
        return None;
    }
    if buf[0] != TLS_HANDSHAKE {
        return None;
    }
    let mut pos: usize = CLIENT_HELLO_FIXED_PREFIX;
    if len - pos < 1 {
        return None;
    }
    let session_id_len: usize = buf[pos] as usize;
    if session_id_len > len - pos - 1 {
        return None;
    }
    pos = pos + 1 + session_id_len;
    if len - pos < 2 {
        return None;
    }
    let cipher_suites_len: usize = read_be16(buf, pos);
    if cipher_suites_len > len - pos - 2 {
        return None;
    }
    pos = pos + 2 + cipher_suites_len;
    if len - pos < 1 {
        return None;
    }
    let compression_len: usize = buf[pos] as usize;
    if compression_len > len - pos - 1 {
        return None;
    }
    pos = pos + 1 + compression_len;
    if len - pos < 2 {
        return None;
    }
    let extensions_len: usize = read_be16(buf, pos);
    pos = pos + 2;
    let limit: usize = if extensions_len > len - pos {
        len
    } else {
        pos + extensions_len
    };
    Some((pos, limit))
}

/// Walks the extensions from `start` and gives the body of the first
/// `server_name` extension.
fn find_server_name(buf: &[u8], start: usize, limit: usize, Ghost(end): Ghost<int>) -> (res:
    Option<usize>)
    requires
        start <= buf@.len(),
        limit <= buf@.len(),
        limit == if end <= buf@.len() {
            end
        } else {
            buf@.len() as int
        },
    ensures
        match res {
            Some(body) => body <= buf@.len() && server_name_extension(buf@, start as int, end)
                == Some(body as int),
            None => server_name_extension(buf@, start as int, end) is None,
        },
{
    let len: usize = buf.len();
    let mut pos: usize = start;
    while pos <= limit && limit - pos >= 4
        invariant
            len == buf@.len(),
            pos <= len,
            limit <= len,
            limit == if end <= len {
                end
            } else {
                len as int
            },
            server_name_extension(buf@, start as int, end) == server_name_extension(
                buf@,
                pos as int,
                end,
            ),
        decreases len - pos,
    {
        let ext_type: usize = read_be16(buf, pos);
        let ext_len: usize = read_be16(buf, pos + 2);
        if ext_type == 0 {
            return Some(pos + 4);
        }
        if ext_len > len - pos - 4 {
            assert(server_name_extension(buf@, pos + 4 + ext_len, end) is None);
            return None;
        }
        pos = pos + 4 + ext_len;
    }
    None
}

/// Reads the server name list whose length field is at `body` and gives the
/// bytes of its first host name.
fn read_host_name(buf: &[u8], body: usize) -> (res: Option<&[u8]>)
    requires
        body <= buf@.len(),
    ensures
        match res {
            Some(name) => host_name_in_extension(buf@, body as int) == Some(name@),
            None => host_name_in_extension(buf@, body as int) is None,
        },
{
    let len: usize = buf.len();
    if len - body < 2 {
        return None;
    }
    let list_len: usize = read_be16(buf, body);
    let first: usize = body + 2;
    let limit: usize = if list_len > len - first {
        len
    } else {
        first + list_len
    };
    let ghost end: int = first + list_len;
    let mut pos: usize = first;
    while pos <= limit && limit - pos >= 3
        invariant
            len == buf@.len(),
            pos <= len,
            limit <= len,
            limit == if end <= len {
                end
            } else {
                len as int
            },
            host_name_in_extension(buf@, body as int) == first_host_name(buf@, pos as int, end),
        decreases len - pos,
    {
        let name_type: u8 = buf[pos];
        let name_len: usize = read_be16(buf, pos + 1);
        if name_len > len - pos - 3 {
            assert(first_host_name(buf@, pos + 3 + name_len, end) is None);
            return None;
        }
        if name_type == 0 {
            return Some(slice_subrange(buf, pos + 3, pos + 3 + name_len));
        }
        pos = pos + 3 + name_len;
    }
    None
}

/// Looks for the announced host name in the ClientHello that `buf` holds.
fn parse_sni(buf: &[u8]) -> (res: Option<String>)
    ensures
        opt_view(res) == sni_hostname(buf@),
{
    match locate_extensions(buf) {
        None => None,
        Some((start, limit)) => {
            let ghost end = extensions_end(buf@);
            match find_server_name(buf, start, limit, Ghost(end)) {
                None => None,
                Some(body) => match read_host_name(buf, body) {
                    None => None,
                    Some(name) => decode_text(name),
                },
            }
        },
    }
}

/// Collects the first bytes of a TLS connection until they show the server
/// name of the ClientHello.
pub struct TlsSniSniffer {
    buffer: Vec<u8>,
    sni: Option<String>,
}

impl TlsSniSniffer {
    /// A host name that was found stays the host name of the buffer.
    #[verifier::type_invariant]
    spec fn cache_is_current(self) -> bool {
        self.sni is Some ==> sni_hostname(self.buffer@) == opt_view(self.sni)
    }

    /// The bytes fed so far, in order.
    pub closed spec fn buffered(&self) -> Seq<u8> {
        self.buffer@
    }

    /// A sniffer that has seen no bytes.
    pub fn new() -> (s: Self)
        ensures
            s.buffered() == Seq::<u8>::empty(),
    {
        Self { buffer: Vec::new(), sni: None }
    }

    /// Appends `data` to the bytes seen so far.
    pub fn feed(&mut self, data: &[u8])
        ensures
            final(self).buffered() == old(self).buffered() + data@,
    {
        proof {
            use_type_invariant(&*self);
            if sni_name_bytes(self.buffer@) is Some {
                lemma_sni_stable(self.buffer@, data@);
            }
        }
        let mut taken = Self::new();
        core::mem::swap(self, &mut taken);
        let Self { buffer, sni } = taken;
        let mut buffer = buffer;
        buffer.extend_from_slice(data);
        assert(buffer@ == old(self).buffer@ + data@);
        *self = Self { buffer, sni };
    }

    /// The host name that the ClientHello announces, as soon as the bytes fed
    /// so far hold it; `None` until then, and for bytes that are no
    /// ClientHello or whose name is not UTF-8.
    pub fn extract_sni(&mut self) -> (res: Option<String>)
        ensures
            final(self).buffered() == old(self).buffered(),
            opt_view(res) == sni_hostname(old(self).buffered()),
    {
        proof {
            use_type_invariant(&*self);
        }
        if self.sni.is_some() {
            return self.sni.clone();
        }
        let found = parse_sni(self.buffer.as_slice());
        if found.is_some() {
            self.sni = found.clone();
        }
        found
    }

    /// Every byte fed so far: what must reach the tunnel before the live
    /// stream does.
    pub fn consumed_bytes(&self) -> (bytes: &[u8])
        ensures
            bytes@ == self.buffered(),
    {
        self.buffer.as_slice()
    }
}

} // verus!
