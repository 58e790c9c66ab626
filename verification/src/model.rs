//! The store's on-disk state as a map from paths to bytes, and the laws the
//! write and read operations satisfy over it.
//!
//! A write persists a chunk's payload at its address's mapped path; a read
//! looks that path up. The laws below say that this layout behaves like a
//! key-value store keyed by address: a written chunk reads back unchanged,
//! writes under distinct addresses never interfere in any order, and
//! repeated writes under one address leave whatever the last one wrote.

use vstd::prelude::*;

use crate::paths::StoreConfig;
use crate::paths::lemma_path_injective;
use crate::paths::path_chars;

verus! {

/// The disk after a chunk's payload is written at its address's mapped
/// path: directories are only structure, so the state is the path-to-bytes
/// mapping alone.
pub open spec fn write_chunk_model(
    disk: Map<Seq<char>, Seq<u8>>,
    cfg: StoreConfig,
    addr: Seq<u8>,
    payload: Seq<u8>,
) -> Map<Seq<char>, Seq<u8>> {
    disk.insert(path_chars(cfg, addr), payload)
}

/// What a read of an address finds: the bytes of the file at its mapped
/// path, or nothing when no such file exists.
pub open spec fn read_chunk_model(
    disk: Map<Seq<char>, Seq<u8>>,
    cfg: StoreConfig,
    addr: Seq<u8>,
) -> Option<Seq<u8>> {
    if disk.contains_key(path_chars(cfg, addr)) {
        Some(disk[path_chars(cfg, addr)])
    } else {
        None
    }
}

/// Round trip: reading an address immediately after writing a chunk under
/// it returns exactly the written payload.
pub proof fn lemma_write_read_round_trip(
    disk: Map<Seq<char>, Seq<u8>>,
    cfg: StoreConfig,
    addr: Seq<u8>,
    payload: Seq<u8>,
)
    ensures
        read_chunk_model(write_chunk_model(disk, cfg, addr, payload), cfg, addr) == Some(payload),
{
}

/// Isolation: a write under one address never changes what a read of a
/// different address returns, because distinct addresses own disjoint
/// paths.
pub proof fn lemma_write_isolation(
    disk: Map<Seq<char>, Seq<u8>>,
    cfg: StoreConfig,
    a1: Seq<u8>,
    payload: Seq<u8>,
    a2: Seq<u8>,
)
    requires
        a1.len() == 32,
        a2.len() == 32,
        a1 != a2,
    ensures
        read_chunk_model(write_chunk_model(disk, cfg, a1, payload), cfg, a2) == read_chunk_model(
            disk,
            cfg,
            a2,
        ),
{
    if path_chars(cfg, a1) == path_chars(cfg, a2) {
        lemma_path_injective(cfg, a1, a2);
    }
}

/// Writes under distinct addresses commute: the on-disk result of
/// concurrent writes does not depend on the order in which they complete.
pub proof fn lemma_distinct_writes_commute(
    disk: Map<Seq<char>, Seq<u8>>,
    cfg: StoreConfig,
    a1: Seq<u8>,
    p1: Seq<u8>,
    a2: Seq<u8>,
    p2: Seq<u8>,
)
    requires
        a1.len() == 32,
        a2.len() == 32,
        a1 != a2,
    ensures
        write_chunk_model(write_chunk_model(disk, cfg, a1, p1), cfg, a2, p2) == write_chunk_model(
            write_chunk_model(disk, cfg, a2, p2),
            cfg,
            a1,
            p1,
        ),
{
    if path_chars(cfg, a1) == path_chars(cfg, a2) {
        lemma_path_injective(cfg, a1, a2);
    }
    assert(write_chunk_model(write_chunk_model(disk, cfg, a1, p1), cfg, a2, p2)
        =~= write_chunk_model(write_chunk_model(disk, cfg, a2, p2), cfg, a1, p1));
}

/// Content-addressing tolerance: a second write of the same payload under
/// the same address changes nothing, so any number of racing identical
/// writers leaves the disk exactly as one of them would.
pub proof fn lemma_same_write_idempotent(
    disk: Map<Seq<char>, Seq<u8>>,
    cfg: StoreConfig,
    addr: Seq<u8>,
    payload: Seq<u8>,
)
    ensures
        write_chunk_model(write_chunk_model(disk, cfg, addr, payload), cfg, addr, payload)
            == write_chunk_model(disk, cfg, addr, payload),
{
    assert(write_chunk_model(write_chunk_model(disk, cfg, addr, payload), cfg, addr, payload)
        =~= write_chunk_model(disk, cfg, addr, payload));
}

/// Same-address races without coordination: whichever write completes last
/// determines the stored bytes, independent of what stood there before.
pub proof fn lemma_last_write_wins(
    disk: Map<Seq<char>, Seq<u8>>,
    cfg: StoreConfig,
    addr: Seq<u8>,
    p1: Seq<u8>,
    p2: Seq<u8>,
)
    ensures
        write_chunk_model(write_chunk_model(disk, cfg, addr, p1), cfg, addr, p2)
            == write_chunk_model(disk, cfg, addr, p2),
{
    assert(write_chunk_model(write_chunk_model(disk, cfg, addr, p1), cfg, addr, p2)
        =~= write_chunk_model(disk, cfg, addr, p2));
}

} // verus!
