use vstd::prelude::*;
use vstd::endian::endianness;
use crate::words::{bytes_of_words, words_to_bytes};

verus! {

/// The number of 32-bit words in a packed parameter block.
pub const PACK_WORDS: usize = 6;

/// The number of bytes in a packed parameter block: a multiple of eight, as
/// the alignment of its leading pair of words asks.
pub const PACK_BYTES: usize = 24;

/// The constants of one simulation, laid out as the compute kernel reads
/// them: the squared spacings, the diffusion coefficient and the time step
/// as binary32 bit patterns, then the row length of the grid and one word of
/// padding. A pack is made once and never changed.
#[derive(Clone, Copy, Debug)]
pub struct ParameterPack {
    dx2: u32,
    dy2: u32,
    diffusion: u32,
    dt: u32,
    row_length: u32,
    padding: u32,
}

impl ParameterPack {
    /// The six words of the pack in the order of their transfer.
    pub closed spec fn layout(&self) -> Seq<u32> {
        seq![self.dx2, self.dy2, self.diffusion, self.dt, self.row_length, self.padding]
    }

    /// The layout of a pack made from the given constants.
    pub open spec fn layout_of(dx2: u32, dy2: u32, diffusion: u32, dt: u32, row_length: u32) -> Seq<
        u32,
    > {
        seq![dx2, dy2, diffusion, dt, row_length, 0u32]
    }

    /// Packs the constants; the padding word is zero.
    pub fn new(dx2: u32, dy2: u32, diffusion: u32, dt: u32, row_length: u32) -> (r: ParameterPack)
        ensures
            r.layout() == Self::layout_of(dx2, dy2, diffusion, dt, row_length),
    {
        ParameterPack { dx2, dy2, diffusion, dt, row_length, padding: 0 }
    }

    /// The six words of the pack in the order of their transfer.
    pub fn words(&self) -> (r: Vec<u32>)
        ensures
            r@ == self.layout(),
            r@.len() == PACK_WORDS,
    {
        let mut words: Vec<u32> = Vec::with_capacity(PACK_WORDS);
        words.push(self.dx2);
        words.push(self.dy2);
        words.push(self.diffusion);
        words.push(self.dt);
        words.push(self.row_length);
        words.push(self.padding);
        assert(words@ =~= self.layout());
        words
    }

    /// The contents of the parameter buffer: the memory image of the six
    /// words.
    pub fn to_bytes(&self) -> (r: Vec<u8>)
        ensures
            r@ == bytes_of_words(self.layout(), endianness()),
            r@.len() == PACK_BYTES,
    {
        let words = self.words();
        words_to_bytes(&words)
    }

    /// The squared spacing along a row.
    pub fn dx2(&self) -> (r: u32)
        ensures
            r == self.layout()[0],
    {
        self.dx2
    }

    /// The squared spacing along a column.
    pub fn dy2(&self) -> (r: u32)
        ensures
            r == self.layout()[1],
    {
        self.dy2
    }

    /// The diffusion coefficient.
    pub fn diffusion(&self) -> (r: u32)
        ensures
            r == self.layout()[2],
    {
        self.diffusion
    }

    /// The time step.
    pub fn dt(&self) -> (r: u32)
        ensures
            r == self.layout()[3],
    {
        self.dt
    }

    /// The number of cells in a row of the grid.
    pub fn row_length(&self) -> (r: u32)
        ensures
            r == self.layout()[4],
    {
        self.row_length
    }
}

} // verus!
