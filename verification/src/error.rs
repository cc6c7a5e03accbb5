use vstd::prelude::*;

verus! {

/// The three families an [`Error`] can belong to.
#[derive(Debug, Clone, Copy, PartialEq, Eq, Structural)]
pub enum ErrorKind {
    /// A resource the pipeline was built from is unusable.
    ResourceLoad,
    /// The label mapping is absent or does not cover a predicted label.
    Configuration,
    /// The values handed to a call do not have the shape the call needs.
    Input,
}

/// Everything that can go wrong while building or running the pipeline.
#[derive(Debug, Clone, Copy, PartialEq, Eq, Structural)]
pub enum Error {
    /// The tokenizer's vocabulary has no entry for its own unknown-token marker.
    MalformedVocabulary,
    /// The model configuration carries no label mapping at all.
    MissingLabelMapping,
    /// The model predicted `label_id`, which the label mapping does not name.
    UnmappedLabel { label_id: i64 },
    /// The batch holds no text.
    EmptyBatch,
    /// Every row of the batch is empty, so the padded batch would have no column.
    EmptyRows,
    /// The score tensor is empty along some axis, is ragged, or holds a score
    /// above [`crate::scores::SCORE_ONE`].
    MalformedScores,
    /// The score tensor and the padded batch disagree on batch size or row
    /// length, or a labelled position lies outside the padded batch.
    ShapeMismatch,
}

impl Error {
    /// The family of this error.
    pub open spec fn spec_kind(self) -> ErrorKind {
        match self {
            Error::MalformedVocabulary => ErrorKind::ResourceLoad,
            Error::MissingLabelMapping => ErrorKind::Configuration,
            Error::UnmappedLabel { .. } => ErrorKind::Configuration,
            Error::EmptyBatch => ErrorKind::Input,
            Error::EmptyRows => ErrorKind::Input,
            Error::MalformedScores => ErrorKind::Input,
            Error::ShapeMismatch => ErrorKind::Input,
        }
    }

    /// The family of this error.
    #[verifier::when_used_as_spec(spec_kind)]
    pub fn kind(self) -> (k: ErrorKind)
        ensures
            k == self.spec_kind(),
    {
        match self {
            Error::MalformedVocabulary => ErrorKind::ResourceLoad,
            Error::MissingLabelMapping => ErrorKind::Configuration,
            Error::UnmappedLabel { .. } => ErrorKind::Configuration,
            Error::EmptyBatch => ErrorKind::Input,
            Error::EmptyRows => ErrorKind::Input,
            Error::MalformedScores => ErrorKind::Input,
            Error::ShapeMismatch => ErrorKind::Input,
        }
    }
}

} // verus!
