use ckb_std::error::SysError;
use dynamic_loading_demo::error::{entry, Error};
use dynamic_loading_demo::library::{Export, Symbol};
use dynamic_loading_demo::loader::{Blob, LoaderContext};

const BASE: usize = 0x4_0000;
const CAPACITY: usize = 64 * 1024;

fn hash_of(seed: u8) -> [u8; 32] {
    let mut h = [0u8; 32];
    for (i, b) in h.iter_mut().enumerate() {
        *b = seed.wrapping_add(i as u8);
    }
    h
}

fn export(name: &[u8], offset: usize) -> Export {
    Export { name: name.to_vec(), offset }
}

fn shared_lib(hash: [u8; 32]) -> Blob {
    let mut code = vec![0u8; 64];
    code[0..4].copy_from_slice(&[0x13, 0x05, 0xa5, 0x02]);
    code[16..19].copy_from_slice(b"foo");
    Blob {
        data_hash: hash,
        code,
        exports: vec![export(b"plus_42", 0), export(b"foo", 8)],
    }
}

#[test]
fn load_fits_and_symbols_stay_in_arena() {
    let mut ctx = LoaderContext::new(BASE, CAPACITY);
    let h = hash_of(7);
    let blob = shared_lib(h);
    let code = blob.code.clone();
    let lib = ctx.load(&h, Some(blob)).expect("load");
    assert_eq!(lib.start(), BASE);
    assert_eq!(lib.size(), 64);
    assert_eq!(ctx.cursor(), 64);
    assert_eq!(ctx.remaining(), CAPACITY - 64);
    assert_eq!(&ctx.bytes()[0..64], &code[..]);
    assert!(ctx.bytes()[64..].iter().all(|b| *b == 0));
    for name in [&b"plus_42"[..], &b"foo"[..]] {
        let s = lib.get(name).expect("resolves");
        assert!(s.address >= BASE && s.address < BASE + CAPACITY);
    }
}

#[test]
fn resolves_plus_42_at_its_offset() {
    let mut ctx = LoaderContext::new(BASE, CAPACITY);
    let h = hash_of(1);
    let lib = ctx.load(&h, Some(shared_lib(h))).unwrap();
    assert_eq!(lib.get(b"plus_42"), Ok(Symbol { address: BASE }));
}

#[test]
fn resolves_foo_at_its_offset() {
    let mut ctx = LoaderContext::new(BASE, CAPACITY);
    let h = hash_of(1);
    let lib = ctx.load(&h, Some(shared_lib(h))).unwrap();
    assert_eq!(lib.get(b"foo"), Ok(Symbol { address: BASE + 8 }));
}

#[test]
fn missing_blob_is_item_missing_and_cursor_unchanged() {
    let mut ctx = LoaderContext::new(BASE, CAPACITY);
    let h = hash_of(3);
    assert!(matches!(ctx.load(&h, None), Err(Error::ItemMissing)));
    assert_eq!(ctx.cursor(), 0);
    assert!(ctx.bytes().iter().all(|b| *b == 0));
}

#[test]
fn other_blob_is_item_missing() {
    let mut ctx = LoaderContext::new(BASE, CAPACITY);
    let blob = shared_lib(hash_of(4));
    assert!(matches!(ctx.load(&hash_of(5), Some(blob)), Err(Error::ItemMissing)));
    assert_eq!(ctx.cursor(), 0);
}

#[test]
fn oversized_blob_is_length_not_enough() {
    let mut ctx = LoaderContext::new(BASE, 32);
    let h = hash_of(9);
    assert!(matches!(ctx.load(&h, Some(shared_lib(h))), Err(Error::LengthNotEnough)));
    assert_eq!(ctx.cursor(), 0);
    assert!(ctx.bytes().iter().all(|b| *b == 0));
}

#[test]
fn blob_filling_the_arena_exactly_loads() {
    let mut ctx = LoaderContext::new(BASE, 64);
    let h = hash_of(9);
    let lib = ctx.load(&h, Some(shared_lib(h))).unwrap();
    assert_eq!(lib.size(), 64);
    assert_eq!(ctx.remaining(), 0);
}

#[test]
fn export_outside_image_is_encoding() {
    let mut ctx = LoaderContext::new(BASE, CAPACITY);
    let h = hash_of(2);
    let mut blob = shared_lib(h);
    blob.exports.push(export(b"bad", 64));
    assert!(matches!(ctx.load(&h, Some(blob)), Err(Error::Encoding)));
    assert_eq!(ctx.cursor(), 0);
}

#[test]
fn second_load_goes_after_the_first() {
    let mut ctx = LoaderContext::new(BASE, CAPACITY);
    let h1 = hash_of(1);
    let h2 = hash_of(2);
    let first = ctx.load(&h1, Some(shared_lib(h1))).unwrap();
    let second = ctx.load(&h2, Some(shared_lib(h2))).unwrap();
    assert_eq!(first.start(), BASE);
    assert_eq!(second.start(), BASE + 64);
    assert_eq!(ctx.cursor(), 128);
    assert_eq!(second.get(b"foo"), Ok(Symbol { address: BASE + 64 + 8 }));
}

#[test]
fn lookup_twice_gives_the_same_address() {
    let mut ctx = LoaderContext::new(BASE, CAPACITY);
    let h = hash_of(6);
    let lib = ctx.load(&h, Some(shared_lib(h))).unwrap();
    let a = lib.get(b"plus_42").unwrap();
    let b = lib.get(b"plus_42").unwrap();
    assert_eq!(a.address, b.address);
}

#[test]
fn nonexistent_symbol_is_item_missing() {
    let mut ctx = LoaderContext::new(BASE, CAPACITY);
    let h = hash_of(6);
    let lib = ctx.load(&h, Some(shared_lib(h))).unwrap();
    assert_eq!(lib.get(b"nonexistent"), Err(Error::ItemMissing));
    assert_eq!(lib.get(b"plus_4"), Err(Error::ItemMissing));
    assert_eq!(lib.get(b"plus_420"), Err(Error::ItemMissing));
    assert_eq!(lib.get(b""), Err(Error::ItemMissing));
}

#[test]
fn first_export_of_a_name_wins() {
    let mut ctx = LoaderContext::new(BASE, CAPACITY);
    let h = hash_of(8);
    let mut blob = shared_lib(h);
    blob.exports.push(export(b"foo", 12));
    let lib = ctx.load(&h, Some(blob)).unwrap();
    assert_eq!(lib.get(b"foo"), Ok(Symbol { address: BASE + 8 }));
}

#[test]
fn empty_image_loads_and_exports_nothing() {
    let mut ctx = LoaderContext::new(BASE, CAPACITY);
    let h = hash_of(0);
    let blob = Blob { data_hash: h, code: Vec::new(), exports: Vec::new() };
    let lib = ctx.load(&h, Some(blob)).unwrap();
    assert_eq!(lib.size(), 0);
    assert_eq!(ctx.cursor(), 0);
    assert_eq!(lib.get(b"foo"), Err(Error::ItemMissing));
}

#[test]
fn new_context_is_empty() {
    let ctx = LoaderContext::new(BASE, 4096);
    assert_eq!(ctx.base_addr(), BASE);
    assert_eq!(ctx.capacity(), 4096);
    assert_eq!(ctx.cursor(), 0);
    assert_eq!(ctx.bytes().len(), 4096);
}

#[test]
fn exit_codes_follow_the_taxonomy() {
    assert_eq!(entry(Ok(())), 0);
    assert_eq!(entry(Err(Error::IndexOutOfBound)), 1);
    assert_eq!(entry(Err(Error::ItemMissing)), 2);
    assert_eq!(entry(Err(Error::LengthNotEnough)), 3);
    assert_eq!(entry(Err(Error::Encoding)), 4);
    assert_eq!(Error::Encoding.code(), 4);
}

#[test]
fn host_errors_map_onto_the_taxonomy() {
    assert_eq!(Error::from_sys(SysError::IndexOutOfBound), Some(Error::IndexOutOfBound));
    assert_eq!(Error::from_sys(SysError::ItemMissing), Some(Error::ItemMissing));
    assert_eq!(Error::from_sys(SysError::LengthNotEnough(100)), Some(Error::LengthNotEnough));
    assert_eq!(Error::from_sys(SysError::Encoding), Some(Error::Encoding));
    assert_eq!(Error::from_sys(SysError::Unknown(77)), None);
    assert_eq!(Error::from_sys(SysError::InvalidFd), None);
}
