//! A loaded library: a region of the arena and the image's export table, with
//! lookup of symbols by name.

use vstd::prelude::*;
use crate::error::Error;

verus! {

/// One entry of an image's export table: a symbol's name and its offset from
/// the start of the image.
pub struct Export {
    pub name: Vec<u8>,
    pub offset: usize,
}

impl View for Export {
    type V = (Seq<u8>, nat);

    open spec fn view(&self) -> (Seq<u8>, nat) {
        (self.name@, self.offset as nat)
    }
}

/// Every export of the table points inside an image of `size` bytes.
pub open spec fn exports_within(exports: Seq<(Seq<u8>, nat)>, size: nat) -> bool {
    forall|i: int| 0 <= i < exports.len() ==> #[trigger] exports[i].1 < size
}

/// The offset of the first export named `name`, if any.
pub open spec fn first_offset(exports: Seq<(Seq<u8>, nat)>, name: Seq<u8>) -> Option<nat>
    decreases exports.len(),
{
    if exports.len() == 0 {
        None
    } else if exports[0].0 == name {
        Some(exports[0].1)
    } else {
        first_offset(exports.drop_first(), name)
    }
}

/// A loaded library as values: the absolute address of its region, the
/// region's length, and its export table.
pub struct HandleModel {
    pub start: nat,
    pub size: nat,
    pub exports: Seq<(Seq<u8>, nat)>,
}

impl HandleModel {
    pub open spec fn wf(&self) -> bool {
        &&& self.start + self.size <= usize::MAX
        &&& exports_within(self.exports, self.size)
    }
}

/// What `get` returns: the absolute address of the first export named
/// `name`, or `ItemMissing`.
pub open spec fn get_spec(h: HandleModel, name: Seq<u8>) -> Result<nat, Error> {
    match first_offset(h.exports, name) {
        Some(off) => Ok(h.start + off),
        None => Err(Error::ItemMissing),
    }
}

/// A resolved symbol: the absolute address of an export. What lies there,
/// and its signature, is the caller's to assert.
#[derive(Clone, Copy, Debug, PartialEq, Eq, Structural)]
pub struct Symbol {
    pub address: usize,
}

/// The outcome of a lookup, as values.
pub open spec fn symbol_result_view(r: Result<Symbol, Error>) -> Result<nat, Error> {
    match r {
        Ok(s) => Ok(s.address as nat),
        Err(e) => Err(e),
    }
}

/// A library loaded into a region of the arena.
pub struct LibraryHandle {
    start: usize,
    size: usize,
    exports: Vec<Export>,
}

impl View for LibraryHandle {
    type V = HandleModel;

    closed spec fn view(&self) -> HandleModel {
        HandleModel {
            start: self.start as nat,
            size: self.size as nat,
            exports: self.exports@.map_values(|e: Export| e@),
        }
    }
}

/// Skipping exports that do not carry `name` leaves the first match as it is.
pub(crate) proof fn lemma_first_offset_skip(exports: Seq<(Seq<u8>, nat)>, name: Seq<u8>, i: int)
    requires
        0 <= i <= exports.len(),
        forall|j: int| 0 <= j < i ==> (#[trigger] exports[j]).0 != name,
    ensures
        first_offset(exports, name) == first_offset(exports.subrange(i, exports.len() as int), name),
    decreases i,
{
    if i > 0 {
        let rest = exports.drop_first();
        assert forall|j: int| 0 <= j < i - 1 implies (#[trigger] rest[j]).0 != name by {
            assert(rest[j] == exports[j + 1]);
        }
        lemma_first_offset_skip(rest, name, i - 1);
        assert(rest.subrange(i - 1, rest.len() as int) =~= exports.subrange(i, exports.len() as int));
    } else {
        assert(exports.subrange(0, exports.len() as int) =~= exports);
    }
}

/// The first match, where there is one, is the offset of some export.
pub(crate) proof fn lemma_first_offset_within(exports: Seq<(Seq<u8>, nat)>, name: Seq<u8>, size: nat)
    requires
        exports_within(exports, size),
    ensures
        first_offset(exports, name) matches Some(off) ==> off < size,
    decreases exports.len(),
{
    if exports.len() > 0 && exports[0].0 != name {
        let rest = exports.drop_first();
        assert forall|i: int| 0 <= i < rest.len() implies #[trigger] rest[i].1 < size by {
            assert(rest[i] == exports[i + 1]);
        }
        lemma_first_offset_within(rest, name, size);
    }
}

/// Whether a table name equals the name looked up.
fn name_eq(a: &Vec<u8>, b: &[u8]) -> (r: bool)
    ensures
        r == (a@ == b@),
{
    if a.len() != b.len() {
        return false;
    }
    let mut i: usize = 0;
    while i < a.len()
        invariant
            i <= a@.len(),
            a@.len() == b@.len(),
            forall|j: int| 0 <= j < i ==> a@[j] == b@[j],
        decreases a@.len() - i,
    {
        if a[i] != b[i] {
            return false;
        }
        i = i + 1;
    }
    assert(a@ =~= b@);
    true
}

impl LibraryHandle {
    pub open spec fn wf(&self) -> bool {
        self@.wf()
    }

    /// A handle on the region of `size` bytes at `start`, with the image's
    /// export table.
    pub(crate) fn from_region(start: usize, size: usize, exports: Vec<Export>) -> (r: Self)
        ensures
            r@ == (HandleModel {
                start: start as nat,
                size: size as nat,
                exports: exports@.map_values(|e: Export| e@),
            }),
    {
        LibraryHandle { start, size, exports }
    }

    /// Absolute address of the library's region.
    pub fn start(&self) -> (r: usize)
        ensures
            r == self@.start,
    {
        self.start
    }

    /// Length of the library's region in bytes.
    pub fn size(&self) -> (r: usize)
        ensures
            r == self@.size,
    {
        self.size
    }

    /// Resolves `name` to the absolute address of the first export that
    /// carries it; `ItemMissing` where none does. The handle is left as it is.
    pub fn get(&self, name: &[u8]) -> (r: Result<Symbol, Error>)
        requires
            self.wf(),
        ensures
            symbol_result_view(r) == get_spec(self@, name@),
            r matches Ok(s) ==> self@.start <= s.address < self@.start + self@.size,
    {
        let ghost exports = self@.exports;
        proof {
            lemma_first_offset_within(exports, name@, self@.size);
        }
        let mut i: usize = 0;
        while i < self.exports.len()
            invariant
                i <= self.exports@.len(),
                self.wf(),
                exports == self.exports@.map_values(|e: Export| e@),
                forall|j: int| 0 <= j < i ==> (#[trigger] exports[j]).0 != name@,
            decreases self.exports@.len() - i,
        {
            let e = &self.exports[i];
            if name_eq(&e.name, name) {
                proof {
                    lemma_first_offset_skip(exports, name@, i as int);
                    assert(exports.subrange(i as int, exports.len() as int)[0] == exports[i as int]);
                    assert(exports[i as int] == e@);
                    assert(exports[i as int].1 < self@.size);
                }
                return Ok(Symbol { address: self.start + e.offset });
            }
            i = i + 1;
        }
        proof {
            lemma_first_offset_skip(exports, name@, i as int);
        }
        Err(Error::ItemMissing)
    }
}

} // verus!
