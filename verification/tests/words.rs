use heatrs::error::HeatError;
use heatrs::grid::Grid;
use heatrs::params::{ParameterPack, PACK_BYTES, PACK_WORDS};
use heatrs::words::{field_bytes, reconstruct, WORD_BYTES};

fn native(words: &[u32]) -> Vec<u8> {
    let mut bytes = Vec::new();
    for w in words {
        for b in w.to_ne_bytes() {
            bytes.push(b);
        }
    }
    bytes
}

#[test]
fn field_bytes_are_the_memory_of_the_cells() {
    let words = vec![0x0102_0304u32, 0xdead_beef, 0, 1, 0xffff_ffff, 0x8000_0000];
    let g = Grid::from_vec(2, 3, words.clone()).unwrap();
    let bytes = field_bytes(&g);
    assert_eq!(bytes.len(), WORD_BYTES * 6);
    assert_eq!(bytes, native(&words));
}

#[test]
fn field_bytes_of_real_cells() {
    let reals = [1.0f32, -2.5, 0.0, 100.0];
    let mut words = Vec::new();
    let mut want = Vec::new();
    for r in reals {
        words.push(r.to_bits());
        for b in r.to_ne_bytes() {
            want.push(b);
        }
    }
    let g = Grid::from_vec(2, 2, words).unwrap();
    assert_eq!(field_bytes(&g), want);
}

#[test]
fn reconstruct_reads_back_what_field_bytes_wrote() {
    let words = vec![7u32, 0x0102_0304, 0xdead_beef, 42, 0xffff_fffe, 3, 2, 1, 0, 9, 8, 0x8000_0001];
    let g = Grid::from_vec(3, 4, words).unwrap();
    let back = reconstruct(3, 4, &field_bytes(&g)).unwrap();
    assert_eq!(back, g);
}

#[test]
fn reconstruct_makes_words_of_four_bytes_each() {
    let bytes = vec![1u8, 2, 3, 4, 5, 6, 7, 8, 9, 10, 11, 12, 13, 14, 15, 16];
    let g = reconstruct(2, 2, &bytes).unwrap();
    assert_eq!(
        g.cells(),
        &vec![
            u32::from_ne_bytes([1, 2, 3, 4]),
            u32::from_ne_bytes([5, 6, 7, 8]),
            u32::from_ne_bytes([9, 10, 11, 12]),
            u32::from_ne_bytes([13, 14, 15, 16]),
        ]
    );
    assert_eq!(g.rows(), 2);
    assert_eq!(g.cols(), 2);
}

#[test]
fn reconstruct_rejects_a_wrong_byte_count() {
    let bytes = vec![0u8; 16];
    assert_eq!(reconstruct(2, 3, &bytes), Err(HeatError::ShapeReconstruction));
    assert_eq!(reconstruct(1, 3, &bytes), Err(HeatError::ShapeReconstruction));
    assert_eq!(reconstruct(usize::MAX, 4, &bytes), Err(HeatError::ShapeReconstruction));
    assert_eq!(reconstruct(2, 2, &vec![0u8; 15]), Err(HeatError::ShapeReconstruction));
    assert_eq!(reconstruct(2, 2, &vec![0u8; 17]), Err(HeatError::ShapeReconstruction));
    assert_eq!(reconstruct(1, 1, &vec![0u8; 3]), Err(HeatError::ShapeReconstruction));
    assert!(reconstruct(4, 1, &bytes).is_ok());
    assert!(reconstruct(0, 5, &Vec::new()).is_ok());
}

#[test]
fn parameter_pack_layout() {
    let dx2 = (0.5f32).powi(2).to_bits();
    let dy2 = (2.0f32).powi(2).to_bits();
    let a = (0.1f32).to_bits();
    let dt = (0.01f32).to_bits();
    let pack = ParameterPack::new(dx2, dy2, a, dt, 17);
    assert_eq!(pack.words(), vec![dx2, dy2, a, dt, 17, 0]);
    assert_eq!(pack.words().len(), PACK_WORDS);
    assert_eq!(pack.dx2(), dx2);
    assert_eq!(pack.dy2(), dy2);
    assert_eq!(pack.diffusion(), a);
    assert_eq!(pack.dt(), dt);
    assert_eq!(pack.row_length(), 17);
}

#[test]
fn parameter_pack_bytes() {
    let pack = ParameterPack::new(0x3e80_0000, 0x4080_0000, 0x3dcc_cccd, 0x3c23_d70a, 640);
    let bytes = pack.to_bytes();
    assert_eq!(bytes.len(), PACK_BYTES);
    assert_eq!(bytes.len() % 8, 0);
    assert_eq!(bytes, native(&[0x3e80_0000, 0x4080_0000, 0x3dcc_cccd, 0x3c23_d70a, 640, 0]));
    let mut reals = Vec::new();
    for b in (0.25f32).to_ne_bytes() {
        reals.push(b);
    }
    for b in (4.0f32).to_ne_bytes() {
        reals.push(b);
    }
    assert_eq!(bytes[0..8], reals[..]);
}
