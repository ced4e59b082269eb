//! Properties of loading and lookup that hold over all inputs.

use vstd::prelude::*;
use crate::error::Error;
use crate::library::{
    HandleModel, exports_within, first_offset, get_spec, lemma_first_offset_skip,
    lemma_first_offset_within,
};
use crate::loader::{BlobModel, ContextModel, load_spec};

verus! {

/// A blob found under the requested hash, that fits in what is left of the
/// arena and whose exports point inside it, loads; its bytes then stand in
/// the arena unchanged at the handle's region, and every name that resolves
/// in the new handle resolves to an address inside the arena.
pub proof fn lemma_loaded_symbols_inside_arena(
    ctx: ContextModel,
    hash: Seq<u8>,
    blob: BlobModel,
    name: Seq<u8>,
)
    requires
        ctx.wf(),
        blob.hash == hash,
        ctx.cursor + blob.code.len() <= ctx.capacity,
        exports_within(blob.exports, blob.code.len()),
    ensures
        load_spec(ctx, hash, Some(blob)).1 is Ok,
        ({
            let (next, r) = load_spec(ctx, hash, Some(blob));
            let h = r->Ok_0;
            &&& next.wf()
            &&& h.start == ctx.base + ctx.cursor
            &&& next.bytes.subrange(ctx.cursor as int, (ctx.cursor + h.size) as int) == blob.code
            &&& get_spec(h, name) matches Ok(a) ==> ctx.base <= a < ctx.base + ctx.capacity
        }),
{
    let (next, r) = load_spec(ctx, hash, Some(blob));
    let h = r->Ok_0;
    lemma_first_offset_within(h.exports, name, h.size);
    assert(next.bytes.subrange(ctx.cursor as int, (ctx.cursor + h.size) as int) =~= blob.code);
}

/// Where the host finds no blob, or another blob than the one requested, the
/// load fails with `ItemMissing` and the arena, its cursor included, is left
/// as it was.
pub proof fn lemma_missing_blob_leaves_arena(
    ctx: ContextModel,
    hash: Seq<u8>,
    retrieved: Option<BlobModel>,
)
    requires
        retrieved matches Some(b) ==> b.hash != hash,
    ensures
        load_spec(ctx, hash, retrieved) == (ctx, Err::<HandleModel, Error>(Error::ItemMissing)),
{
}

/// A blob larger than what is left of the arena fails with
/// `LengthNotEnough`, and the arena is left as it was.
pub proof fn lemma_oversized_blob_leaves_arena(ctx: ContextModel, hash: Seq<u8>, blob: BlobModel)
    requires
        blob.hash == hash,
        ctx.cursor + blob.code.len() > ctx.capacity,
    ensures
        load_spec(ctx, hash, Some(blob)) == (ctx, Err::<HandleModel, Error>(Error::LengthNotEnough)),
{
}

/// Looking a name up depends on the handle and the name alone: two lookups of
/// one name on one handle give the same address, or fail alike.
pub proof fn lemma_lookup_idempotent(h: HandleModel, first: Seq<u8>, second: Seq<u8>)
    requires
        first == second,
    ensures
        get_spec(h, first) == get_spec(h, second),
{
}

/// A name that no export carries fails with `ItemMissing`.
pub proof fn lemma_absent_name_missing(h: HandleModel, name: Seq<u8>)
    requires
        forall|i: int| 0 <= i < h.exports.len() ==> (#[trigger] h.exports[i]).0 != name,
    ensures
        get_spec(h, name) == Err::<nat, Error>(Error::ItemMissing),
{
    lemma_first_offset_skip(h.exports, name, h.exports.len() as int);
    assert(h.exports.subrange(h.exports.len() as int, h.exports.len() as int).len() == 0);
    assert(first_offset(h.exports, name) is None);
}

} // verus!
