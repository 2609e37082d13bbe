use mesh_store::identity_hash::PrimitiveIdHasher;
use mesh_store::ids::{FaceID, HalfEdgeID, VertexID};
use mesh_store::keyed_map::{word_of, PrimitiveKey, PrimitiveMap};

#[derive(Debug, Clone, Copy, PartialEq)]
struct EdgeKey {
    from: u16,
    to: u16,
}

impl EdgeKey {
    fn packed(&self) -> u32 {
        ((self.from as u32) << 16) | self.to as u32
    }
}

impl PrimitiveKey for EdgeKey {
    fn word(&self) -> u32 {
        self.packed()
    }

    fn hash_word(&self, state: &mut PrimitiveIdHasher) {
        state.write_u32(self.packed());
    }
}

#[test]
fn identifiers_give_their_index_as_word() {
    assert_eq!(word_of(&VertexID::new(5)), 5);
    assert_eq!(word_of(&HalfEdgeID::new(6)), 6);
    assert_eq!(word_of(&FaceID::new(u32::MAX)), u32::MAX);
    assert_eq!(word_of(&VertexID::new(0)), 0);
}

#[test]
fn new_map_is_empty() {
    let map: PrimitiveMap<VertexID, i32> = PrimitiveMap::new();
    assert_eq!(map.len(), 0);
    assert!(map.iter().is_empty());
    assert!(!map.contains_key(&VertexID::new(0)));
    assert_eq!(map.get(&VertexID::new(0)), None);
    let sized: PrimitiveMap<FaceID, i32> = PrimitiveMap::with_capacity(32);
    assert_eq!(sized.len(), 0);
    assert!(sized.iter().is_empty());
}

#[test]
fn insert_get_remove() {
    let mut map: PrimitiveMap<HalfEdgeID, String> = PrimitiveMap::new();
    map.insert(HalfEdgeID::new(3), "three".to_string());
    map.insert(HalfEdgeID::new(8), "eight".to_string());
    assert_eq!(map.len(), 2);
    assert!(map.contains_key(&HalfEdgeID::new(3)));
    assert!(!map.contains_key(&HalfEdgeID::new(4)));
    assert_eq!(map.get(&HalfEdgeID::new(8)), Some(&"eight".to_string()));
    assert_eq!(map.get(&HalfEdgeID::new(4)), None);
    assert_eq!(map.remove(&HalfEdgeID::new(3)), Some("three".to_string()));
    assert_eq!(map.remove(&HalfEdgeID::new(3)), None);
    assert_eq!(map.len(), 1);
    assert!(!map.contains_key(&HalfEdgeID::new(3)));
    assert_eq!(map.get(&HalfEdgeID::new(8)), Some(&"eight".to_string()));
}

#[test]
fn insert_replaces_the_value_of_a_present_key() {
    let mut map: PrimitiveMap<VertexID, u8> = PrimitiveMap::new();
    map.insert(VertexID::new(1), 10);
    map.insert(VertexID::new(1), 11);
    assert_eq!(map.len(), 1);
    assert_eq!(map.get(&VertexID::new(1)), Some(&11));
}

#[test]
fn keys_with_the_same_word_share_one_entry() {
    let first = EdgeKey { from: 2, to: 7 };
    let second = EdgeKey { from: 2, to: 7 };
    assert_eq!(word_of(&first), 0x0002_0007);
    assert_eq!(word_of(&first), word_of(&second));
    let mut map: PrimitiveMap<EdgeKey, &str> = PrimitiveMap::new();
    map.insert(first, "first");
    map.insert(second, "second");
    assert_eq!(map.len(), 1);
    assert_eq!(map.get(&first), Some(&"second"));
    assert_eq!(map.get(&second), Some(&"second"));
    let pairs = map.iter();
    assert_eq!(pairs.len(), 1);
    assert_eq!(*pairs[0].0, first);
    assert_eq!(*pairs[0].1, "second");

    let reversed = EdgeKey { from: 7, to: 2 };
    assert!(!map.contains_key(&reversed));
    map.insert(reversed, "back");
    assert_eq!(map.len(), 2);
    assert_eq!(map.get(&first), Some(&"second"));
    assert_eq!(map.get(&reversed), Some(&"back"));
}

#[test]
fn keyed_get_mut_writes_through() {
    let mut map: PrimitiveMap<FaceID, Vec<u8>> = PrimitiveMap::new();
    map.insert(FaceID::new(4), vec![1]);
    map.insert(FaceID::new(5), vec![2]);
    map.get_mut(&FaceID::new(4)).unwrap().push(3);
    assert_eq!(map.get(&FaceID::new(4)), Some(&vec![1, 3]));
    assert_eq!(map.get(&FaceID::new(5)), Some(&vec![2]));
    assert!(map.get_mut(&FaceID::new(6)).is_none());
    assert_eq!(map.len(), 2);
    assert!(!map.contains_key(&FaceID::new(6)));
}

#[test]
fn iter_yields_every_entry_once() {
    let mut map: PrimitiveMap<VertexID, u32> = PrimitiveMap::new();
    for i in 0..20u32 {
        map.insert(VertexID::new(i * 3), i);
    }
    map.remove(&VertexID::new(9));
    let mut seen: Vec<(u32, u32)> = map.iter().into_iter().map(|(k, v)| (k.get(), *v)).collect();
    seen.sort();
    let expected: Vec<(u32, u32)> = (0..20u32).filter(|i| *i != 3).map(|i| (i * 3, i)).collect();
    assert_eq!(seen, expected);
    assert_eq!(map.iter().len(), map.len());
    assert_eq!(map.iter().len(), 19);
}

#[test]
fn map_clones_independently() {
    let mut map: PrimitiveMap<VertexID, u8> = PrimitiveMap::new();
    map.insert(VertexID::new(1), 1);
    let copy = map.clone();
    map.insert(VertexID::new(1), 2);
    assert_eq!(copy.get(&VertexID::new(1)), Some(&1));
    assert_eq!(map.get(&VertexID::new(1)), Some(&2));
}

#[test]
fn keys_feed_the_hasher_their_word() {
    let mut state = PrimitiveIdHasher::default();
    VertexID::new(41).hash_word(&mut state);
    assert_eq!(state.finish(), 41);
    HalfEdgeID::new(42).hash_word(&mut state);
    assert_eq!(state.finish(), 42);
    FaceID::new(43).hash_word(&mut state);
    assert_eq!(state.finish(), 43);
    EdgeKey { from: 1, to: 0 }.hash_word(&mut state);
    assert_eq!(state.finish(), 65536);
}

#[derive(Debug, Clone, PartialEq)]
struct Tagged {
    word: u32,
    tag: &'static str,
}

impl PrimitiveKey for Tagged {
    fn word(&self) -> u32 {
        self.word
    }

    fn hash_word(&self, state: &mut PrimitiveIdHasher) {
        state.write_u32(self.word);
    }
}

#[test]
fn stored_key_stays_when_its_value_is_replaced() {
    let mut map: PrimitiveMap<Tagged, u8> = PrimitiveMap::new();
    map.insert(Tagged { word: 7, tag: "first" }, 1);
    map.insert(Tagged { word: 7, tag: "second" }, 2);
    map.insert(Tagged { word: 8, tag: "third" }, 3);
    assert_eq!(map.len(), 2);
    assert_eq!(map.get(&Tagged { word: 7, tag: "any" }), Some(&2));
    let mut pairs: Vec<(Tagged, u8)> =
        map.iter().into_iter().map(|(k, v)| (k.clone(), *v)).collect();
    pairs.sort_by_key(|pair| pair.0.word);
    assert_eq!(
        pairs,
        vec![
            (Tagged { word: 7, tag: "first" }, 2),
            (Tagged { word: 8, tag: "third" }, 3)
        ]
    );
    assert_eq!(map.remove(&Tagged { word: 7, tag: "other" }), Some(2));
    assert_eq!(map.len(), 1);
    map.insert(Tagged { word: 7, tag: "fourth" }, 4);
    let tags: Vec<&str> = map.iter().into_iter().filter(|(k, _)| k.word == 7).map(|(k, _)| k.tag).collect();
    assert_eq!(tags, vec!["fourth"]);
}

#[test]
fn get_mut_keeps_the_stored_key() {
    let mut map: PrimitiveMap<Tagged, u8> = PrimitiveMap::new();
    map.insert(Tagged { word: 1, tag: "kept" }, 1);
    *map.get_mut(&Tagged { word: 1, tag: "probe" }).unwrap() = 9;
    let pairs = map.iter();
    assert_eq!(pairs.len(), 1);
    assert_eq!(pairs[0].0.tag, "kept");
    assert_eq!(*pairs[0].1, 9);
}
