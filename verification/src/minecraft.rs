//! Sniffer for the Minecraft handshake packet: it reads the server address
//! that the client typed, which is the routing key on a shared Minecraft port.

use crate::text::{decode_text, opt_view, utf8_text};
use crate::varint::{
    continues_at, lemma_varint_len_bounds, lemma_varint_len_skip,
    lemma_varint_stable, lemma_varint_value_bound, pow128, read_base128, varint_len,
    varint_value,
};
use vstd::prelude::*;
use vstd::slice::slice_subrange;

verus! {

/// Largest number of bytes a VarInt may occupy.
pub const VARINT_MAX_BYTES: usize = 5;

/// The VarInt at `start`: its value and the position just behind it.
pub open spec fn varint_at(data: Seq<u8>, start: int) -> Option<(nat, int)> {
    match varint_len(data, start, VARINT_MAX_BYTES as nat) {
        Some(n) => Some((varint_value(data, start, n), start + n)),
        None => None,
    }
}

/// A VarInt ends within the data, at most five bytes behind its start, and
/// its value is below `2^35`.
pub proof fn lemma_varint_fits(data: Seq<u8>, start: int)
    requires
        0 <= start,
    ensures
        match varint_at(data, start) {
            Some((value, next)) => start < next <= start + VARINT_MAX_BYTES && next <= data.len()
                && value < 0x8_0000_0000,
            None => true,
        },
{
    if varint_at(data, start) is Some {
        lemma_varint_len_bounds(data, start, VARINT_MAX_BYTES as nat);
        let n = varint_len(data, start, VARINT_MAX_BYTES as nat)->0;
        lemma_varint_value_bound(data, start, n);
        reveal_with_fuel(pow128, 6);
    }
}

/// A VarInt whose fifth byte still carries the continuation bit is no
/// VarInt: reading it fails.
pub proof fn lemma_overlong_varint_fails(data: Seq<u8>, start: int)
    requires
        0 <= start,
        forall|k: int| start <= k < start + VARINT_MAX_BYTES ==> continues_at(data, k),
    ensures
        varint_at(data, start) is None,
{
    lemma_varint_len_skip(data, start, VARINT_MAX_BYTES as nat, VARINT_MAX_BYTES as nat);
}

/// Reads the VarInt that starts at `data[start]` into 64 bits.
pub fn read_varint_u64(data: &[u8], start: usize) -> (res: Option<(u64, usize)>)
    ensures
        match res {
            Some((value, next)) => varint_at(data@, start as int) == Some(
                (value as nat, next as int),
            ),
            None => varint_at(data@, start as int) is None,
        },
{
    proof {
        lemma_varint_fits(data@, start as int);
    }
    match read_base128(data, start, VARINT_MAX_BYTES) {
        Some((value, next)) => Some((value as u64, next)),
        None => None,
    }
}

/// Reads the VarInt that starts at `data[start]`: up to five bytes, seven
/// value bits each, least significant group first, the high bit of a byte
/// saying that another follows. Returns the value and the position behind it.
///
/// Fails when the data end before the VarInt does, when the fifth byte still
/// carries the continuation bit, and when the value does not fit a `usize`.
pub fn read_varint(data: &[u8], start: usize) -> (res: Option<(usize, usize)>)
    ensures
        match res {
            Some((value, next)) => varint_at(data@, start as int) == Some(
                (value as nat, next as int),
            ),
            None => match varint_at(data@, start as int) {
                Some((value, _)) => value > usize::MAX,
                None => true,
            },
        },
{
    match read_varint_u64(data, start) {
        Some((value, next)) => {
            if value > usize::MAX as u64 {
                None
            } else {
                Some((value as usize, next))
            }
        },
        None => None,
    }
}

/// The bytes of the server address in the handshake packet that `buf` starts
/// with: behind the packet length, the packet id (which must be 0) and the
/// protocol version stands the length of the address, then the address.
/// `None` until `buf` holds the whole packet and the whole address.
pub open spec fn handshake_address(buf: Seq<u8>) -> Option<Seq<u8>> {
    match varint_at(buf, 0) {
        None => None,
        Some((packet_len, id_at)) => if buf.len() < id_at + packet_len {
            None
        } else {
            match varint_at(buf, id_at) {
                None => None,
                Some((packet_id, version_at)) => if packet_id != 0 {
                    None
                } else {
                    match varint_at(buf, version_at) {
                        None => None,
                        Some((_, len_at)) => match varint_at(buf, len_at) {
                            None => None,
                            Some((addr_len, addr_at)) => if buf.len() < addr_at + addr_len {
                                None
                            } else {
                                Some(buf.subrange(addr_at, addr_at + addr_len))
                            },
                        },
                    }
                },
            }
        },
    }
}

/// The server address of the handshake packet in `buf`, as text.
pub open spec fn handshake_server_address(buf: Seq<u8>) -> Option<Seq<char>> {
    match handshake_address(buf) {
        None => None,
        Some(address) => utf8_text(address),
    }
}

/// Appending bytes does not change a VarInt that was complete before.
proof fn lemma_varint_at_stable(buf: Seq<u8>, more: Seq<u8>, start: int)
    requires
        varint_at(buf, start) is Some,
    ensures
        varint_at(buf + more, start) == varint_at(buf, start),
{
    lemma_varint_stable(buf, more, start, VARINT_MAX_BYTES as nat);
}

/// Once a buffer shows the server address of the handshake, no byte that
/// arrives later changes it.
pub proof fn lemma_handshake_stable(buf: Seq<u8>, more: Seq<u8>)
    requires
        handshake_address(buf) is Some,
    ensures
        handshake_address(buf + more) == handshake_address(buf),
        handshake_server_address(buf + more) == handshake_server_address(buf),
{
    lemma_varint_at_stable(buf, more, 0);
    let (packet_len, id_at) = varint_at(buf, 0)->0;
    lemma_varint_at_stable(buf, more, id_at);
    let (packet_id, version_at) = varint_at(buf, id_at)->0;
    lemma_varint_at_stable(buf, more, version_at);
    let (version, len_at) = varint_at(buf, version_at)->0;
    lemma_varint_at_stable(buf, more, len_at);
}

/// Looks for the server address in the handshake packet that `buf` starts
/// with.
fn parse_handshake(buf: &[u8]) -> (res: Option<String>)
    ensures
        opt_view(res) == handshake_server_address(buf@),
{
    let len: usize = buf.len();
    proof {
        lemma_varint_fits(buf@, 0);
    }
    let (packet_len, id_at) = match read_varint_u64(buf, 0) {
        Some(found) => found,
        None => {
            return None;
        },
    };
    if packet_len > (len - id_at) as u64 {
        return None;
    }
    let (packet_id, version_at) = match read_varint_u64(buf, id_at) {
        Some(found) => found,
        None => {
            return None;
        },
    };
    if packet_id != 0 {
        return None;
    }
    let (_, len_at) = match read_varint_u64(buf, version_at) {
        Some(found) => found,
        None => {
            return None;
        },
    };
    proof {
        lemma_varint_fits(buf@, len_at as int);
    }
    let (addr_len, addr_at) = match read_varint_u64(buf, len_at) {
        Some(found) => found,
        None => {
            return None;
        },
    };
    if addr_len > (len - addr_at) as u64 {
        return None;
    }
    decode_text(slice_subrange(buf, addr_at, addr_at + addr_len as usize))
}

/// Collects the first bytes of a Minecraft connection until they hold the
/// server address of the handshake.
pub struct MinecraftSniffer {
    buffer: Vec<u8>,
    server_address: Option<String>,
}

impl MinecraftSniffer {
    /// An address that was found stays the address of the buffer.
    #[verifier::type_invariant]
    spec fn cache_is_current(self) -> bool {
        self.server_address is Some ==> handshake_server_address(self.buffer@) == opt_view(
            self.server_address,
        )
    }

    /// The bytes fed so far, in order.
    pub closed spec fn buffered(&self) -> Seq<u8> {
        self.buffer@
    }

    /// A sniffer that has seen no bytes.
    pub fn new() -> (s: Self)
        ensures
            s.buffered() == Seq::<u8>::empty(),
    {
        Self { buffer: Vec::new(), server_address: None }
    }

    /// Appends `data` to the bytes seen so far.
    pub fn feed(&mut self, data: &[u8])
        ensures
            final(self).buffered() == old(self).buffered() + data@,
    {
        proof {
            use_type_invariant(&*self);
            if handshake_address(self.buffer@) is Some {
                lemma_handshake_stable(self.buffer@, data@);
            }
        }
        let mut taken = Self::new();
        core::mem::swap(self, &mut taken);
        let Self { buffer, server_address } = taken;
        let mut buffer = buffer;
        buffer.extend_from_slice(data);
        assert(buffer@ == old(self).buffer@ + data@);
        *self = Self { buffer, server_address };
    }

    /// The server address of the handshake, as soon as the bytes fed so far
    /// hold it; `None` until then, and for bytes that are no handshake or
    /// whose address is not UTF-8.
    pub fn extract_server_address(&mut self) -> (res: Option<String>)
        ensures
            final(self).buffered() == old(self).buffered(),
            opt_view(res) == handshake_server_address(old(self).buffered()),
    {
        proof {
            use_type_invariant(&*self);
        }
        if self.server_address.is_some() {
            return self.server_address.clone();
        }
        let found = parse_handshake(self.buffer.as_slice());
        if found.is_some() {
            self.server_address = found.clone();
        }
        found
    }

    /// Every byte fed so far: what must reach the tunnel before the live
    /// stream does.
    pub fn consumed_bytes(&self) -> (bytes: &[u8])
        ensures
            bytes@ == self.buffered(),
    {
        self.buffer.as_slice()
    }
}

} // verus!
