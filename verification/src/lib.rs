//! Named-entity extraction around a token-classification model.
//!
//! The crate covers the part of the pipeline that sits between a tokenizer and
//! a sequence-labelling model: it equalises the token rows of a batch, turns
//! the model's per-token label scores into labelled positions, and pairs each
//! labelled position with the text of its token.  The forward pass of the model
//! is not part of the crate; callers hand it in as a function from the padded
//! batch to the scores.
//!
//! Scores travel as the raw bit patterns of IEEE-754 doubles between zero and
//! one.  On that range the unsigned order of the bit patterns is the numeric
//! order of the doubles, so every comparison the crate makes is a comparison of
//! integers.

pub mod error;
pub mod batch;
pub mod scores;
pub mod decoder;
pub mod tokenizer;
pub mod entity;
pub mod pipeline;

pub use crate::batch::{pad_batch, PaddedBatch, PAD_ID};
pub use crate::decoder::{
    decode_labels, label_ids, name_labels, select_labels, Prediction, TokenLabel, NON_ENTITY,
};
pub use crate::entity::{assemble, Entity};
pub use crate::error::{Error, ErrorKind};
pub use crate::pipeline::{NERModel, MAX_TOKENS};
pub use crate::scores::{select, ScoreTensor, SCORE_ONE};
