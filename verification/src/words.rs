use vstd::prelude::*;
use vstd::endian::{endianness, Endian};
use crate::error::HeatError;
use crate::grid::{Field, Grid};

verus! {

/// The number of bytes that one 32-bit word takes in a device buffer.
pub const WORD_BYTES: usize = 4;

/// Byte `place` of the four bytes that `word` takes in memory under the
/// given byte order.
pub open spec fn word_byte(word: u32, order: Endian, place: int) -> u8 {
    let rank = match order {
        Endian::Little => place,
        Endian::Big => 3 - place,
    };
    if rank == 0 {
        (word % 256) as u8
    } else if rank == 1 {
        (word / 256 % 256) as u8
    } else if rank == 2 {
        (word / 65536 % 256) as u8
    } else {
        (word / 16777216 % 256) as u8
    }
}

/// The word that four bytes of memory make up under the given byte order.
pub open spec fn word_of(b0: u8, b1: u8, b2: u8, b3: u8, order: Endian) -> u32 {
    match order {
        Endian::Little => (b0 + 256 * b1 + 65536 * b2 + 16777216 * b3) as u32,
        Endian::Big => (b3 + 256 * b2 + 65536 * b1 + 16777216 * b0) as u32,
    }
}

/// The memory image of a sequence of words: four bytes for each word, in
/// the order of the words.
pub open spec fn bytes_of_words(words: Seq<u32>, order: Endian) -> Seq<u8> {
    Seq::new(4 * words.len(), |k: int| word_byte(words[k / 4], order, k % 4))
}

/// The words that a memory image holds: one for each full group of four
/// bytes.
pub open spec fn words_of_bytes(bytes: Seq<u8>, order: Endian) -> Seq<u32> {
    Seq::new(
        bytes.len() / 4,
        |k: int| word_of(bytes[4 * k], bytes[4 * k + 1], bytes[4 * k + 2], bytes[4 * k + 3], order),
    )
}

/// A word is the word that its own four bytes make up.
pub proof fn lemma_word_round_trip(word: u32, order: Endian)
    ensures
        word_of(
            word_byte(word, order, 0),
            word_byte(word, order, 1),
            word_byte(word, order, 2),
            word_byte(word, order, 3),
            order,
        ) == word,
{
}

/// Reading back the memory image of a sequence of words gives the words.
pub proof fn lemma_words_round_trip(words: Seq<u32>, order: Endian)
    ensures
        bytes_of_words(words, order).len() == 4 * words.len(),
        words_of_bytes(bytes_of_words(words, order), order) == words,
{
    let bytes = bytes_of_words(words, order);
    let back = words_of_bytes(bytes, order);
    assert(back.len() == words.len());
    assert forall|k: int| 0 <= k < words.len() implies back[k] == words[k] by {
        lemma_word_round_trip(words[k], order);
        assert(bytes[4 * k] == word_byte(words[k], order, 0));
        assert(bytes[4 * k + 1] == word_byte(words[k], order, 1));
        assert(bytes[4 * k + 2] == word_byte(words[k], order, 2));
        assert(bytes[4 * k + 3] == word_byte(words[k], order, 3));
    }
    assert(back =~= words);
}

/// Calls `bytemuck::cast_slice` from `u32` to `u8` and copies the view it
/// returns. The cast reinterprets the words' memory in place, so the result
/// holds four bytes for each word, in the byte order of the machine. A cast
/// to a type of alignment one and size one cannot fail.
#[verifier::external_body]
pub(crate) fn words_to_bytes(words: &Vec<u32>) -> (r: Vec<u8>)
    ensures
        r@ == bytes_of_words(words@, endianness()),
{
    bytemuck::cast_slice::<u32, u8>(words.as_slice()).to_vec()
}

/// Calls `bytemuck::pod_collect_to_vec` from `u8` to `u32`. It copies the
/// bytes into the memory of a new vector of words, which works for any
/// alignment of the input. With a length that is a multiple of four no
/// padding is added, so each word is made of four successive bytes in the
/// byte order of the machine.
#[verifier::external_body]
pub(crate) fn bytes_to_words(bytes: &Vec<u8>) -> (r: Vec<u32>)
    requires
        bytes@.len() % 4 == 0,
    ensures
        r@ == words_of_bytes(bytes@, endianness()),
{
    bytemuck::pod_collect_to_vec::<u8, u32>(bytes.as_slice())
}

/// The contents of a device buffer that holds `field`: its cells in
/// row-major order, each as the four bytes it takes in memory.
pub fn field_bytes(field: &Grid<u32>) -> (r: Vec<u8>)
    ensures
        r@ == bytes_of_words(field@.cells, endianness()),
        r@.len() == 4 * field@.cells.len(),
{
    words_to_bytes(field.cells())
}

/// The bytes are those of a grid with the given shape.
pub open spec fn fits_shape(rows: nat, cols: nat, bytes: Seq<u8>) -> bool {
    bytes.len() == 4 * (rows * cols)
}

/// Rebuilds a grid of the given shape from the bytes read back from a
/// device buffer. The byte count must be that of the shape.
pub fn reconstruct(rows: usize, cols: usize, bytes: &Vec<u8>) -> (r: Result<Grid<u32>, HeatError>)
    ensures
        r is Ok <==> fits_shape(rows as nat, cols as nat, bytes@),
        r is Err ==> r == Err::<Grid<u32>, HeatError>(HeatError::ShapeReconstruction),
        r is Ok ==> r.unwrap()@ == (Field {
            rows: rows as nat,
            cols: cols as nat,
            cells: words_of_bytes(bytes@, endianness()),
        }) && r.unwrap()@.wf(),
{
    if bytes.len() % WORD_BYTES != 0 {
        return Err(HeatError::ShapeReconstruction);
    }
    let count: usize = bytes.len() / WORD_BYTES;
    match rows.checked_mul(cols) {
        Some(cells) => {
            if cells != count {
                return Err(HeatError::ShapeReconstruction);
            }
        },
        None => {
            return Err(HeatError::ShapeReconstruction);
        },
    }
    let words = bytes_to_words(bytes);
    Grid::from_vec(rows, cols, words)
}

/// A grid read back from its own buffer contents is the grid.
pub proof fn lemma_field_round_trip(field: Field<u32>, order: Endian)
    requires
        field.wf(),
    ensures
        bytes_of_words(field.cells, order).len() == 4 * (field.rows * field.cols),
        words_of_bytes(bytes_of_words(field.cells, order), order) == field.cells,
{
    lemma_words_round_trip(field.cells, order);
}

} // verus!
