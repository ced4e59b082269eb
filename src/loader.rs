//! The loader context: a fixed-capacity arena with a monotonically advancing
//! cursor, into which hash-verified code blobs are copied whole or not at all.

use vstd::prelude::*;
use crate::error::Error;
use crate::library::{Export, HandleModel, LibraryHandle, exports_within};

verus! {

/// Length of a content hash in bytes.
pub const HASH_LEN: usize = 32;

/// What the host's content-addressed storage handed back for a hash: the data
/// hash it holds the bytes under, the raw image, and the image's export table.
pub struct Blob {
    pub data_hash: [u8; 32],
    pub code: Vec<u8>,
    pub exports: Vec<Export>,
}

/// A blob as values.
pub struct BlobModel {
    pub hash: Seq<u8>,
    pub code: Seq<u8>,
    pub exports: Seq<(Seq<u8>, nat)>,
}

impl View for Blob {
    type V = BlobModel;

    open spec fn view(&self) -> BlobModel {
        BlobModel {
            hash: self.data_hash@,
            code: self.code@,
            exports: self.exports@.map_values(|e: Export| e@),
        }
    }
}

/// The outcome of a retrieval, as values.
pub open spec fn retrieved_view(retrieved: Option<Blob>) -> Option<BlobModel> {
    match retrieved {
        Some(b) => Some(b@),
        None => None,
    }
}

/// The arena as values: the address of its first byte, its capacity, the
/// offset of the first free byte, and its contents.
pub struct ContextModel {
    pub base: nat,
    pub capacity: nat,
    pub cursor: nat,
    pub bytes: Seq<u8>,
}

impl ContextModel {
    pub open spec fn wf(&self) -> bool {
        &&& self.bytes.len() == self.capacity
        &&& self.cursor <= self.capacity
        &&& self.base + self.capacity <= usize::MAX
    }
}

/// What `load` does, as a function of the arena, the requested hash and what
/// the host handed back for it.
pub open spec fn load_spec(ctx: ContextModel, hash: Seq<u8>, retrieved: Option<BlobModel>) -> (
    ContextModel,
    Result<HandleModel, Error>,
) {
    match retrieved {
        None => (ctx, Err(Error::ItemMissing)),
        Some(b) => if b.hash != hash {
            (ctx, Err(Error::ItemMissing))
        } else if b.code.len() + ctx.cursor > ctx.capacity {
            (ctx, Err(Error::LengthNotEnough))
        } else if !exports_within(b.exports, b.code.len()) {
            (ctx, Err(Error::Encoding))
        } else {
            (
                ContextModel {
                    cursor: ctx.cursor + b.code.len(),
                    bytes: ctx.bytes.subrange(0, ctx.cursor as int) + b.code + ctx.bytes.subrange(
                        (ctx.cursor + b.code.len()) as int,
                        ctx.capacity as int,
                    ),
                    ..ctx
                },
                Ok(HandleModel { start: ctx.base + ctx.cursor, size: b.code.len(), exports: b.exports }),
            )
        },
    }
}

/// The outcome of a load, as values.
pub open spec fn handle_result_view(r: Result<LibraryHandle, Error>) -> Result<HandleModel, Error> {
    match r {
        Ok(h) => Ok(h@),
        Err(e) => Err(e),
    }
}

/// A fixed-capacity arena for loaded code.
pub struct LoaderContext {
    base_addr: usize,
    buffer: Vec<u8>,
    cursor: usize,
}

impl View for LoaderContext {
    type V = ContextModel;

    closed spec fn view(&self) -> ContextModel {
        ContextModel {
            base: self.base_addr as nat,
            capacity: self.buffer@.len(),
            cursor: self.cursor as nat,
            bytes: self.buffer@,
        }
    }
}

/// Whether two content hashes are the same.
fn hash_eq(a: &[u8; 32], b: &[u8; 32]) -> (r: bool)
    ensures
        r == (a@ == b@),
{
    let mut i: usize = 0;
    while i < HASH_LEN
        invariant
            i <= HASH_LEN,
            a@.len() == HASH_LEN,
            b@.len() == HASH_LEN,
            forall|j: int| 0 <= j < i ==> a@[j] == b@[j],
        decreases HASH_LEN - i,
    {
        if a[i] != b[i] {
            return false;
        }
        i = i + 1;
    }
    assert(a@ =~= b@);
    true
}

/// Whether every export points inside an image of `size` bytes.
fn check_exports(exports: &Vec<Export>, size: usize) -> (r: bool)
    ensures
        r == exports_within(exports@.map_values(|e: Export| e@), size as nat),
{
    let ghost table = exports@.map_values(|e: Export| e@);
    let mut i: usize = 0;
    while i < exports.len()
        invariant
            i <= exports@.len(),
            table == exports@.map_values(|e: Export| e@),
            forall|j: int| 0 <= j < i ==> #[trigger] table[j].1 < size,
        decreases exports@.len() - i,
    {
        if exports[i].offset >= size {
            assert(table[i as int] == exports@[i as int]@);
            assert(table[i as int].1 >= size);
            return false;
        }
        i = i + 1;
    }
    true
}

impl LoaderContext {
    pub open spec fn wf(&self) -> bool {
        self@.wf()
    }

    /// An empty, zeroed arena of `capacity` bytes whose first byte lies at
    /// address `base_addr`.
    pub fn new(base_addr: usize, capacity: usize) -> (r: Self)
        requires
            base_addr + capacity <= usize::MAX,
        ensures
            r.wf(),
            r@.base == base_addr,
            r@.capacity == capacity,
            r@.cursor == 0,
            r@.bytes == Seq::new(capacity as nat, |i: int| 0u8),
    {
        let mut buffer: Vec<u8> = Vec::new();
        let mut i: usize = 0;
        while i < capacity
            invariant
                i <= capacity,
                buffer@ == Seq::new(i as nat, |j: int| 0u8),
            decreases capacity - i,
        {
            buffer.push(0u8);
            i = i + 1;
            assert(buffer@ =~= Seq::new(i as nat, |j: int| 0u8));
        }
        LoaderContext { base_addr, buffer, cursor: 0 }
    }

    /// Address of the arena's first byte.
    pub fn base_addr(&self) -> (r: usize)
        ensures
            r == self@.base,
    {
        self.base_addr
    }

    /// Capacity of the arena in bytes.
    pub fn capacity(&self) -> (r: usize)
        ensures
            r == self@.capacity,
    {
        self.buffer.len()
    }

    /// Offset of the first free byte.
    pub fn cursor(&self) -> (r: usize)
        ensures
            r == self@.cursor,
    {
        self.cursor
    }

    /// The arena's contents.
    pub fn bytes(&self) -> (r: &[u8])
        ensures
            r@ == self@.bytes,
    {
        self.buffer.as_slice()
    }

    /// Bytes of the arena that are still free.
    pub fn remaining(&self) -> (r: usize)
        requires
            self.wf(),
        ensures
            r == self@.capacity - self@.cursor,
    {
        self.buffer.len() - self.cursor
    }

    /// Loads the blob that the host handed back for `hash` into the free part
    /// of the arena, all or nothing. Fails with `ItemMissing` where nothing or
    /// another blob came back, with `LengthNotEnough` where the image does not
    /// fit in the bytes that are left, and with `Encoding` where an export
    /// points outside the image; the arena is then unchanged. On success the
    /// image is copied at the cursor, the cursor moves past it, and the handle
    /// covers exactly those bytes.
    pub fn load(&mut self, hash: &[u8; 32], retrieved: Option<Blob>) -> (r: Result<
        LibraryHandle,
        Error,
    >)
        requires
            old(self).wf(),
        ensures
            final(self).wf(),
            (final(self)@, handle_result_view(r)) == load_spec(old(self)@, hash@, retrieved_view(retrieved)),
            r matches Ok(h) ==> h.wf(),
    {
        let blob = match retrieved {
            None => return Err(Error::ItemMissing),
            Some(b) => b,
        };
        if !hash_eq(&blob.data_hash, hash) {
            return Err(Error::ItemMissing);
        }
        let len = blob.code.len();
        if len > self.buffer.len() - self.cursor {
            return Err(Error::LengthNotEnough);
        }
        if !check_exports(&blob.exports, len) {
            return Err(Error::Encoding);
        }
        let ghost old_bytes = self.buffer@;
        let cursor = self.cursor;
        let mut i: usize = 0;
        while i < len
            invariant
                i <= len,
                len == blob.code@.len(),
                cursor + len <= old_bytes.len(),
                self.cursor == cursor,
                self.base_addr == old(self).base_addr,
                old_bytes == old(self)@.bytes,
                self.base_addr + old_bytes.len() <= usize::MAX,
                self.buffer@.len() == old_bytes.len(),
                forall|j: int| 0 <= j < cursor ==> #[trigger] self.buffer@[j] == old_bytes[j],
                forall|j: int| cursor <= j < cursor + i ==> #[trigger] self.buffer@[j] == blob.code@[j - cursor],
                forall|j: int| cursor + i <= j < old_bytes.len() ==> #[trigger] self.buffer@[j] == old_bytes[j],
            decreases len - i,
        {
            self.buffer.set(cursor + i, blob.code[i]);
            i = i + 1;
        }
        assert(self.buffer@ =~= old_bytes.subrange(0, cursor as int) + blob.code@ + old_bytes.subrange(
            (cursor + len) as int,
            old_bytes.len() as int,
        ));
        self.cursor = cursor + len;
        Ok(LibraryHandle::from_region(self.base_addr + cursor, len, blob.exports))
    }
}

} // verus!
