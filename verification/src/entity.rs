//! The entity assembler: from labelled positions to entity records.

use vstd::prelude::*;
use rust_tokenizers::preprocessing::tokenizer::bert_tokenizer::BertTokenizer;
use crate::batch::PaddedBatch;
use crate::decoder::{token_label_views, PredictionView, TokenLabel, TokenLabelView};
use crate::error::Error;
use crate::tokenizer::{decode_token, token_text};

verus! {

/// An entity found in a text: one token the model labelled, the name of the
/// label, and the score the model gave it.
///
/// `score` is the bit pattern of a double between zero and one.
#[derive(Debug, Clone, PartialEq, Eq)]
pub struct Entity {
    /// Text of the token.
    pub word: String,
    /// Confidence score.
    pub score: u64,
    /// Name of the label, such as `I-PER` or `I-LOC`.
    pub label: String,
}

/// What an [`Entity`] stands for.
pub struct EntityView {
    pub word: Seq<char>,
    pub score: u64,
    pub label: Seq<char>,
}

impl View for Entity {
    type V = EntityView;

    open spec fn view(&self) -> EntityView {
        EntityView { word: self.word@, score: self.score, label: self.label@ }
    }
}

/// The views of a sequence of entities.
pub open spec fn entity_views(entities: Seq<Entity>) -> Seq<EntityView> {
    Seq::new(entities.len(), |k: int| entities[k]@)
}

/// The outcome of a call that yields entities, with the entities taken by
/// their views.
pub open spec fn outcome_view(r: Result<Vec<Entity>, Error>) -> Result<Seq<EntityView>, Error> {
    match r {
        Ok(entities) => Ok(entity_views(entities@)),
        Err(e) => Err(e),
    }
}

/// Whether the position of `at` is one of `batch`.
pub open spec fn in_batch(batch: Seq<Seq<i64>>, at: PredictionView) -> bool {
    &&& 0 <= at.batch_index < batch.len()
    &&& 0 <= at.position_index < batch[at.batch_index].len()
}

/// The entity of a labelled position: the text of the token that `batch` holds
/// there, with the label's name and score.
pub open spec fn entity_of(tokenizer: &BertTokenizer, batch: Seq<Seq<i64>>, tag: TokenLabelView) -> EntityView {
    EntityView {
        word: token_text(tokenizer, batch[tag.prediction.batch_index][tag.prediction.position_index]),
        score: tag.prediction.score,
        label: tag.label,
    }
}

/// Whether every labelled position is one of `batch`.
pub open spec fn all_in_batch(batch: Seq<Seq<i64>>, tags: Seq<TokenLabelView>) -> bool {
    forall|k: int| 0 <= k < tags.len() ==> in_batch(batch, (#[trigger] tags[k]).prediction)
}

/// What assembling comes to: one entity per labelled position, in the same
/// order, unless a position lies outside `batch`.
pub open spec fn assembled(tokenizer: &BertTokenizer, batch: Seq<Seq<i64>>, tags: Seq<TokenLabelView>) -> Result<
    Seq<EntityView>,
    Error,
> {
    if all_in_batch(batch, tags) {
        Ok(Seq::new(tags.len(), |k: int| entity_of(tokenizer, batch, tags[k])))
    } else {
        Err(Error::ShapeMismatch)
    }
}

impl Entity {
    /// The entity that a labelled position makes with the text of its token.
    pub fn new(word: String, tag: &TokenLabel) -> (entity: Entity)
        ensures
            entity@ == (EntityView { word: word@, score: tag.prediction.score, label: tag.label@ }),
    {
        Entity { word, score: tag.prediction.score, label: tag.label.clone() }
    }
}

/// The entity assembler: turns each labelled position into an entity, taking
/// the token from that position of `batch` and its text from `tokenizer`.
///
/// Fails with [`Error::ShapeMismatch`] if a position lies outside `batch`.
pub fn assemble(tokenizer: &BertTokenizer, batch: &PaddedBatch, tags: &Vec<TokenLabel>) -> (r:
    Result<Vec<Entity>, Error>)
    ensures
        outcome_view(r) == assembled(tokenizer, batch@, token_label_views(tags@)),
{
    let ghost views = token_label_views(tags@);
    let mut out: Vec<Entity> = Vec::new();
    let mut k: usize = 0;
    while k < tags.len()
        invariant
            k <= tags.len(),
            out.len() == k,
            views == token_label_views(tags@),
            forall|j: int| 0 <= j < k ==> in_batch(batch@, (#[trigger] views[j]).prediction),
            forall|j: int| 0 <= j < k ==> (#[trigger] out[j])@ == entity_of(tokenizer, batch@, views[j]),
        decreases tags.len() - k,
    {
        let tag = &tags[k];
        match batch.get(tag.prediction.batch_index, tag.prediction.position_index) {
            Some(id) => {
                let word = decode_token(tokenizer, id);
                out.push(Entity::new(word, tag));
            },
            None => {
                assert(!in_batch(batch@, views[k as int].prediction));
                return Err(Error::ShapeMismatch);
            },
        }
        k += 1;
    }
    assert(entity_views(out@) =~= Seq::new(
        views.len(),
        |k: int| entity_of(tokenizer, batch@, views[k]),
    ));
    Ok(out)
}

} // verus!
