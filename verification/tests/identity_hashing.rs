use mesh_store::identity_hash::PrimitiveIdHasher;

#[test]
fn fresh_hasher_has_digest_zero() {
    assert_eq!(PrimitiveIdHasher::default().finish(), 0);
}

#[test]
fn digest_is_the_word_written() {
    let mut hasher = PrimitiveIdHasher::default();
    hasher.write_u32(0xDEAD_BEEF);
    assert_eq!(hasher.finish(), 0xDEAD_BEEF);
    let mut top = PrimitiveIdHasher::default();
    top.write_u32(u32::MAX);
    assert_eq!(top.finish(), 4_294_967_295);
}

#[test]
fn last_word_written_is_the_digest() {
    let mut hasher = PrimitiveIdHasher::default();
    hasher.write_u32(1);
    hasher.write_u32(2);
    assert_eq!(hasher.finish(), 2);
    let copy = hasher.clone();
    hasher.write_u32(3);
    assert_eq!(copy.finish(), 2);
    assert_eq!(hasher.finish(), 3);
}
