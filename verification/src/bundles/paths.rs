//! The differential path encoding of the directory payload.
//!
//! A span of the payload is a run of little-endian `u32` tokens. Token `0`
//! switches between two modes. Any other token `v` is followed by a fragment
//! that ends at a zero byte or at the end of the span; it is appended to the
//! prefix number `v - 1` if there is one. In base mode the result becomes the
//! next prefix; in file mode it is the complete path of a file.

use crate::bytes::{has_room, le_u32_at, u32_at};
use vstd::prelude::*;

verus! {

/// The byte strings that a list of buffers holds.
pub open spec fn byte_views(buffers: Seq<Vec<u8>>) -> Seq<Seq<u8>> {
    buffers.map_values(|b: Vec<u8>| b@)
}

/// Number of bytes from `at` up to the next zero byte, or up to the end of
/// `chunk` where none follows.
pub open spec fn fragment_len(chunk: Seq<u8>, at: int) -> nat
    decreases chunk.len() - at,
{
    if at < 0 || at >= chunk.len() || chunk[at] == 0 {
        0
    } else {
        1 + fragment_len(chunk, at + 1)
    }
}

/// The fragment that starts at `at`: the bytes up to the next zero byte, or
/// up to the end of `chunk` where none follows.
pub open spec fn fragment(chunk: Seq<u8>, at: int) -> Seq<u8> {
    chunk.subrange(at, at + fragment_len(chunk, at))
}

/// `piece` appended to the prefix that `token` names, or `piece` alone when
/// there is no such prefix.
pub open spec fn joined(prefixes: Seq<Seq<u8>>, token: int, piece: Seq<u8>) -> Seq<u8> {
    if 1 <= token <= prefixes.len() {
        prefixes[token - 1] + piece
    } else {
        piece
    }
}

/// The file paths that `chunk` encodes from `at` on, in the mode `base` and
/// with the prefixes collected so far.
pub open spec fn paths_from(chunk: Seq<u8>, at: int, base: bool, prefixes: Seq<Seq<u8>>) -> Seq<
    Seq<u8>,
>
    decreases
        (if at <= chunk.len() {
            chunk.len() - at
        } else {
            0
        }),
{
    if at < 0 || at + 4 > chunk.len() {
        Seq::empty()
    } else {
        let token = le_u32_at(chunk, at);
        if token == 0 {
            paths_from(
                chunk,
                at + 4,
                !base,
                if base {
                    prefixes
                } else {
                    Seq::empty()
                },
            )
        } else {
            let full = joined(prefixes, token, fragment(chunk, at + 4));
            let next = at + 4 + fragment_len(chunk, at + 4) + 1;
            if base {
                paths_from(chunk, next, base, prefixes.push(full))
            } else {
                seq![full] + paths_from(chunk, next, base, prefixes)
            }
        }
    }
}

/// The file paths that `chunk` encodes. Decoding starts in file mode with no
/// prefixes.
pub open spec fn decode_paths(chunk: Seq<u8>) -> Seq<Seq<u8>> {
    paths_from(chunk, 0, false, Seq::empty())
}

/// Measures the fragment that starts at `at`.
fn scan_fragment(chunk: &[u8], at: usize) -> (len: usize)
    requires
        at <= chunk@.len(),
    ensures
        len == fragment_len(chunk@, at as int),
        at + len <= chunk@.len(),
{
    let mut len: usize = 0;
    while at + len < chunk.len() && chunk[at + len] != 0
        invariant
            at + len <= chunk@.len(),
            chunk@.len() == chunk.len(),
            fragment_len(chunk@, at as int) == len + fragment_len(chunk@, at + len),
        decreases chunk@.len() - len,
    {
        len += 1;
    }
    len
}

/// Decodes the file paths of one span of the directory payload.
pub fn read_paths(chunk: &[u8]) -> (paths: Vec<Vec<u8>>)
    ensures
        byte_views(paths@) == decode_paths(chunk@),
{
    let mut paths: Vec<Vec<u8>> = Vec::new();
    let mut prefixes: Vec<Vec<u8>> = Vec::new();
    let mut base = false;
    let mut at: usize = 0;
    assert(byte_views(paths@) =~= Seq::<Seq<u8>>::empty());
    assert(byte_views(prefixes@) =~= Seq::<Seq<u8>>::empty());
    while has_room(chunk, at, 4)
        invariant
            chunk@.len() == chunk.len(),
            at <= chunk@.len(),
            decode_paths(chunk@) == byte_views(paths@) + paths_from(
                chunk@,
                at as int,
                base,
                byte_views(prefixes@),
            ),
        decreases chunk@.len() - at,
    {
        let token = u32_at(chunk, at);
        let start = at + 4;
        if token == 0 {
            base = !base;
            if base {
                prefixes.clear();
                assert(byte_views(prefixes@) =~= Seq::<Seq<u8>>::empty());
            }
            at = start;
        } else {
            let len = scan_fragment(chunk, start);
            let terminated = len < chunk.len() - start;
            let slot = (token - 1) as usize;
            let mut full: Vec<u8> = Vec::new();
            if slot < prefixes.len() {
                full.extend_from_slice(prefixes[slot].as_slice());
            }
            full.extend_from_slice(&chunk[start..start + len]);
            proof {
                let wanted = joined(
                    byte_views(prefixes@),
                    token as int,
                    fragment(chunk@, start as int),
                );
                assert(full@ =~= wanted);
            }
            let ghost full_bytes = full@;
            let ghost old_paths = byte_views(paths@);
            let ghost old_prefixes = byte_views(prefixes@);
            if base {
                prefixes.push(full);
                assert(byte_views(prefixes@) =~= old_prefixes.push(full_bytes));
            } else {
                paths.push(full);
                assert(byte_views(paths@) =~= old_paths.push(full_bytes));
                assert(old_paths.push(full_bytes) + paths_from(
                    chunk@,
                    start + len + 1,
                    base,
                    old_prefixes,
                ) =~= old_paths + (seq![full_bytes] + paths_from(
                    chunk@,
                    start + len + 1,
                    base,
                    old_prefixes,
                )));
            }
            if terminated {
                at = start + len + 1;
            } else {
                assert(paths_from(chunk@, start + len + 1, base, byte_views(prefixes@))
                    =~= Seq::<Seq<u8>>::empty());
                assert(byte_views(paths@) + Seq::<Seq<u8>>::empty() =~= byte_views(paths@));
                return paths;
            }
        }
    }
    assert(byte_views(paths@) + Seq::<Seq<u8>>::empty() =~= byte_views(paths@));
    paths
}

} // verus!
