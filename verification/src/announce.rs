//! The UDP announcement by which a server makes itself known to clients.

use vstd::prelude::*;

use crate::buffer::{be16_at, be16_bytes, be32_at, be32_bytes, lemma_be16_roundtrip, lemma_be32_roundtrip};
use crate::codec::MSG_MAGIC_ID;

verus! {

/// The sixteen bytes of an announcement: the magic number, two bytes of
/// padding, the server's IPv4 address, its TCP port, two bytes of padding and
/// its key, numbers most significant byte first.
pub open spec fn announcement_layout(server_addr: [u8; 4], server_port: u16, server_key: u32) -> Seq<u8> {
    be16_bytes(MSG_MAGIC_ID) + be16_bytes(0) + server_addr@ + be16_bytes(server_port) + be16_bytes(0)
        + be32_bytes(server_key)
}

fn push_u16(buf: &mut Vec<u8>, v: u16)
    ensures
        final(buf)@ == old(buf)@ + be16_bytes(v),
{
    buf.push((v / 256) as u8);
    buf.push((v % 256) as u8);
    assert(buf@ =~= old(buf)@ + be16_bytes(v));
}

fn push_u32(buf: &mut Vec<u8>, v: u32)
    ensures
        final(buf)@ == old(buf)@ + be32_bytes(v),
{
    buf.push((v / 0x100_0000) as u8);
    buf.push(((v / 0x1_0000) % 256) as u8);
    buf.push(((v / 256) % 256) as u8);
    buf.push((v % 256) as u8);
    assert(buf@ =~= old(buf)@ + be32_bytes(v));
}

/// The announcement datagram for a server at `server_addr` (the four octets
/// of its IPv4 address), listening on `server_port`, with key `server_key`.
pub fn announcement_bytes(server_addr: [u8; 4], server_port: u16, server_key: u32) -> (buf: Vec<u8>)
    ensures
        buf@ == announcement_layout(server_addr, server_port, server_key),
        buf@.len() == 16,
{
    let mut buf: Vec<u8> = Vec::new();
    push_u16(&mut buf, MSG_MAGIC_ID);
    push_u16(&mut buf, 0);
    buf.push(server_addr[0]);
    buf.push(server_addr[1]);
    buf.push(server_addr[2]);
    buf.push(server_addr[3]);
    push_u16(&mut buf, server_port);
    push_u16(&mut buf, 0);
    push_u32(&mut buf, server_key);
    assert(buf@ =~= announcement_layout(server_addr, server_port, server_key));
    buf
}

/// A listener reads back every field of an announcement from its fixed
/// place: the magic number from bytes 0-1, the address from bytes 4-7, the
/// port from bytes 8-9 and the key from bytes 12-15.
pub proof fn law_announcement_fields(server_addr: [u8; 4], server_port: u16, server_key: u32)
    ensures
        announcement_layout(server_addr, server_port, server_key).len() == 16,
        be16_at(announcement_layout(server_addr, server_port, server_key), 0) == MSG_MAGIC_ID,
        announcement_layout(server_addr, server_port, server_key).subrange(4, 8) == server_addr@,
        be16_at(announcement_layout(server_addr, server_port, server_key), 8) == server_port,
        be32_at(announcement_layout(server_addr, server_port, server_key), 12) == server_key,
{
    lemma_be16_roundtrip(MSG_MAGIC_ID);
    lemma_be16_roundtrip(server_port);
    lemma_be32_roundtrip(server_key);
    let a = announcement_layout(server_addr, server_port, server_key);
    let m = be16_bytes(MSG_MAGIC_ID);
    let p = be16_bytes(server_port);
    let k = be32_bytes(server_key);
    assert(a[0] == m[0] && a[1] == m[1]);
    assert(a[8] == p[0] && a[9] == p[1]);
    assert(a[12] == k[0] && a[13] == k[1] && a[14] == k[2] && a[15] == k[3]);
    assert(a.subrange(4, 8) =~= server_addr@);
}

} // verus!
