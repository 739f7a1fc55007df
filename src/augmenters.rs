//! The augmenter contract, the pipeline that composes augmenters, and the
//! augmenters whose work is to select, reorder or reshape values.
mod base;
mod crop;
mod custom;
mod drop;
mod frequency_mask;
mod laws;
mod permutate;
mod pipeline;
mod repeat;
mod resize;
mod reverse;
mod time_warp;

pub use base::{Augmenter, copy_range, gated_batch_spec, gated_sample, gated_spec, name_of, one_view};
pub use crop::{Crop, crop_window, is_crop_of};
pub use custom::{Custom, Transform, gated_transform};
pub use drop::{Drop, is_drop_of};
pub use frequency_mask::{
    FrequencyMask, is_default_mask_of, is_mask_of, lemma_mask_len, mask_centres, masked,
};
pub use laws::{lemma_length_preserved, lemma_repeat_batch, lemma_reverse_twice, lemma_shape_changes};
pub use permutate::{
    Permutate, chunk, chunk_count, gather_chunks, is_order, is_permutation_of, lemma_permutation_len,
    lemma_single_window,
    permuted,
};
pub use pipeline::{
    AugmentationPipeline, acts_as, all_per_sample, chain_batch, chain_gated, chain_one, first_incompatible,
    gated_step, lemma_per_sample_rejected, lemma_two_stage_batch, per_sample_batch, run_batch,
    run_gated, run_one,
};
pub use repeat::{Repeat, lemma_repeat_aligned, lemma_repeated, repeated};
pub use resize::{Resize, resized};
pub use reverse::{Reverse, lemma_reverse_involution, lemma_reverse_len, reversed};
pub use time_warp::{fitting_window, splice, warp_window};
