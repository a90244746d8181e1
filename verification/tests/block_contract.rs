//! Placement conformance for contiguous vector blocks.
//!
//! A block built on [`VectorBlockLayout`] lends vector `index` as the span
//! the layout names; these cases pin contiguity, zero initialisation and
//! non-aliasing through that span arithmetic.

use athena::{LetoBackendError, VectorBlockLayout};

const COUNT: usize = 4;
const LEN: usize = 8;

/// One contiguous allocation lent out as per-vector subslices.
struct Block {
    storage: Vec<f64>,
    layout: VectorBlockLayout,
}

impl Block {
    fn allocate(count: usize, len: usize) -> Result<Self, LetoBackendError> {
        let layout = VectorBlockLayout::new(count, len)?;
        Ok(Block { storage: vec![0.0; layout.extent()], layout })
    }

    fn view(&self, index: usize) -> &[f64] {
        let span = self
            .layout
            .span(index)
            .expect("invariant: block storage is contiguous and index is below count");
        &self.storage[span]
    }

    fn view_mut(&mut self, index: usize) -> &mut [f64] {
        let span = self
            .layout
            .span(index)
            .expect("invariant: block storage is contiguous and index is below count");
        &mut self.storage[span]
    }
}

fn block() -> Block {
    Block::allocate(COUNT, LEN).expect("invariant: host allocation succeeds")
}

/// The `index`th vector's contents, counting from `index * LEN`.
fn expected_contents(index: usize) -> [f64; LEN] {
    core::array::from_fn(|offset| (index * LEN + offset) as f64)
}

#[test]
fn a_vector_block_occupies_one_contiguous_extent() {
    let block = block();

    let base = block.view(0).as_ptr();
    for index in 0..COUNT {
        let vector = block.view(index);
        assert_eq!(vector.len(), LEN, "vector {index} must carry the full length");
        assert_eq!(
            vector.as_ptr(),
            base.wrapping_add(index * LEN),
            "vector {index} must begin at its flat offset from the block base"
        );
    }
}

#[test]
fn a_vector_block_is_zero_initialized() {
    let block = block();

    for index in 0..COUNT {
        assert_eq!(block.view(index), [0.0_f64; LEN], "vector {index} must be zeroed");
    }
}

#[test]
fn writing_one_block_vector_leaves_its_neighbours_untouched() {
    let mut block = block();

    for index in 0..COUNT {
        block.view_mut(index).copy_from_slice(&expected_contents(index));
    }

    for index in 0..COUNT {
        assert_eq!(
            block.view(index),
            expected_contents(index),
            "vector {index} does not hold its own contents"
        );
    }
}

#[test]
#[should_panic(expected = "index is below count")]
fn borrowing_past_the_block_panics_rather_than_aliasing() {
    let block = block();

    let _ = block.view(COUNT);
}

#[test]
#[should_panic(expected = "index is below count")]
fn a_zero_length_block_admits_no_index() {
    let block = Block::allocate(0, 0).expect("invariant: an empty block allocates");

    let _ = block.view(0);
}

#[test]
fn a_block_of_zero_length_vectors_still_lends_every_index() {
    let block = Block::allocate(COUNT, 0).expect("invariant: host allocation succeeds");

    for index in 0..COUNT {
        assert!(block.view(index).is_empty(), "vector {index} of a zero-length system must be empty, not absent");
    }
}

#[test]
fn an_extent_past_usize_is_refused() {
    assert_eq!(
        VectorBlockLayout::new(usize::MAX, 2),
        Err(LetoBackendError::BlockExtentOverflow { count: usize::MAX, len: 2 })
    );
    let layout = VectorBlockLayout::new(3, 5).expect("invariant: small extent fits");
    assert_eq!(layout.extent(), 15);
    assert_eq!(layout.count(), 3);
    assert_eq!(layout.len(), 5);
    assert_eq!(layout.span(2), Some(10..15));
    assert_eq!(layout.span(3), None);
}
