use kasumi::varint::VarInt;
use kasumi::world::{
    encode_all_air_section, pack_data_array, pack_data_array_padded, unpack_data_array,
    unpack_data_array_padded, Chunk, ChunkSection, Heightmap,
};

#[test]
fn test_bitpack_round_trip_spanning() {
    // 4096 small entries at 15 bits per entry: exactly 960 words out, and
    // unpacking reproduces the original values
    let entries: Vec<VarInt> = (0..4096).map(|i| VarInt((i * 7 + 3) % 32768)).collect();
    let words = pack_data_array(&entries, 15);
    assert_eq!(words.len(), 960);
    let back = unpack_data_array(&words, 15, 4096);
    assert_eq!(back.len(), 4096);
    for i in 0..4096 {
        assert_eq!(back[i].0, entries[i].0, "entry {i} did not round trip");
    }
}

#[test]
fn test_bitpack_round_trip_padded() {
    // 256 entries at 9 bits per entry with the padded policy: 7 entries per
    // word, so ceil(256 / 7) = 37 words, the last one partially padded, and
    // unpacking reproduces all 256 original values
    let entries: Vec<u64> = (0..256u64).map(|i| (i * 3 + 1) % 512).collect();
    let words = pack_data_array_padded(&entries, 9);
    assert_eq!(words.len(), 37);
    let back = unpack_data_array_padded(&words, 9, 256);
    assert_eq!(back.len(), 256);
    for i in 0..256 {
        assert_eq!(back[i], entries[i], "entry {i} did not round trip");
    }
}

#[test]
fn test_spanning_straddles_word_boundaries() {
    // at 15 bits per entry the fifth entry straddles the first word boundary
    let entries: Vec<VarInt> = vec![VarInt(0x7FFF); 5];
    let words = pack_data_array(&entries, 15);
    // 5 * 15 = 75 bits -> 2 words
    assert_eq!(words.len(), 2);
    let back = unpack_data_array(&words, 15, 5);
    for v in back {
        assert_eq!(v.0, 0x7FFF);
    }
}

#[test]
fn test_padded_never_straddles() {
    // 8 entries at 9 bits: 7 fit in the first word, the eighth starts a new
    // word rather than straddling
    let entries: Vec<u64> = (1..=8u64).collect();
    let words = pack_data_array_padded(&entries, 9);
    assert_eq!(words.len(), 2);
    // the eighth entry sits in the low bits of the second word
    assert_eq!(words[1] & 0x1FF, 8);
    let back = unpack_data_array_padded(&words, 9, 8);
    assert_eq!(back, entries);
}

#[test]
fn test_heightmap_pack() {
    let mut heightmap = Heightmap::new(VarInt(1));
    for i in 0..256 {
        heightmap.heights[i] = (i as u16) % 512;
    }
    let words = heightmap.pack();
    assert_eq!(words.len(), 37);
    let flat: Vec<u64> = words.clone();
    let back = unpack_data_array_padded(&flat, 9, 256);
    for i in 0..256 {
        assert_eq!(back[i], heightmap.heights[i] as u64);
    }
}

#[test]
fn test_chunk_section_counts_and_packs() {
    let mut section = ChunkSection::new_empty();
    assert_eq!(section.non_air_block_count(), 0);
    section.set_block_at(1, 2, 3, VarInt(42));
    section.set_block_at(0, 0, 0, VarInt(7));
    assert_eq!(section.non_air_block_count(), 2);
    let words = section.pack_block_states();
    assert_eq!(words.len(), 960);
    let back = unpack_data_array(&words, 15, 4096);
    assert_eq!(back[0].0, 7);
    // index of (x=1, y=2, z=3) is y * 256 + z * 16 + x
    assert_eq!(back[2 * 256 + 3 * 16 + 1].0, 42);
    let biome_words = section.pack_biomes();
    assert_eq!(biome_words.len(), 6);
    let biomes = unpack_data_array(&biome_words, 6, 64);
    for b in biomes {
        assert_eq!(b.0, 1);
    }
}

#[test]
fn test_chunk_set_block_routes_to_section() {
    let mut chunk = Chunk::new(0, 0);
    chunk.set_block_at(5, 37, 9, VarInt(100));
    // y = 37 lands in section 2 at local y = 5
    let section = chunk.sections[2].as_ref().unwrap();
    let words = pack_data_array(&section.block_states, 15);
    let back = unpack_data_array(&words, 15, 4096);
    assert_eq!(back[5 * 256 + 9 * 16 + 5].0, 100);
}

#[test]
fn test_section_write_layout() {
    let section = ChunkSection::new_empty();
    let bytes = section.write();
    // u16 count, u8 width 15, 960 words, u8 width 6, 6 words
    assert_eq!(bytes.len(), 2 + 1 + 960 * 8 + 1 + 6 * 8);
    assert_eq!(&bytes[..3], &[0, 0, 15]);
    assert_eq!(bytes[3 + 960 * 8], 6);
}

#[test]
fn test_chunk_write_prefixes_length() {
    let chunk = Chunk::new(0, 0);
    let bytes = chunk.write().unwrap();
    // 24 sections of 7732 bytes each: 185568 = 0x2D4E0, a 3-byte VarInt
    let section_len = 2 + 1 + 960 * 8 + 1 + 6 * 8;
    let total = 24 * section_len;
    let (value, consumed) = kasumi::varint::read_varint(&bytes).unwrap();
    assert_eq!(value as usize, total);
    assert_eq!(bytes.len(), consumed + total);
}

#[test]
fn test_encode_all_air_section() {
    assert_eq!(encode_all_air_section(), vec![0, 0, 0, 1, 0, 0, 1, 0, 0]);
}

#[test]
fn test_heightmap_write_layout() {
    let heightmap = Heightmap::new(VarInt(1));
    let bytes = heightmap.write();
    // kind VarInt(1) = 1 byte, count VarInt(37) = 1 byte, 37 words
    assert_eq!(bytes.len(), 1 + 1 + 37 * 8);
    assert_eq!(bytes[0], 1);
    assert_eq!(bytes[1], 37);
}
