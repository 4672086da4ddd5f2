//! The core of an oversampled distortion effect: the schedule that takes a block
//! of one channel through upsampler, distortion stage and downsampler in chunks
//! that fit a fixed scratch buffer, with the laws that make chunked and streamed
//! processing agree, and the selection of a backend for a channel count.

pub mod backend;
pub mod builder;
pub mod factory;
pub mod oversample;
pub mod pipeline;
pub mod streaming;
