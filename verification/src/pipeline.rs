//! The pipeline: a tokenizer and a label mapping, held together for the
//! lifetime of a model.

use vstd::prelude::*;
use std::collections::HashMap;
use rust_tokenizers::preprocessing::tokenizer::bert_tokenizer::BertTokenizer;
use crate::batch::{
    is_rectangle,
    lemma_max_len_attained,
    lemma_padded_shape,
    max_len,
    pad_batch,
    padded,
    token_rows,
    PaddedBatch,
};
use crate::decoder::{
    all_mapped,
    ascending,
    decode_labels,
    label_ids,
    label_names,
    lemma_predictions_are_entities,
    lemma_predictions_ordered,
    lookup,
    named,
    precedes,
    prediction_at,
    predictions,
    NON_ENTITY,
};
use crate::entity::{
    all_in_batch,
    assemble,
    assembled,
    entity_of,
    entity_views,
    in_batch,
    outcome_view,
    Entity,
    EntityView,
};
use crate::error::Error;
use crate::scores::{lemma_argmax_exists, score_cells, valid_scores, ScoreTensor, SCORE_ONE};
use crate::tokenizer::{encode_longest_first, has_unknown_token, knows_unknown_token, token_text};

verus! {

/// The most tokens a text is encoded to; longer texts are truncated.
pub const MAX_TOKENS: usize = 128;

/// Tokens of overlap that truncation keeps aside; the pipeline keeps none.
pub const STRIDE: usize = 0;

/// Whether `rows` can be the encoding of `count` texts under the limit
/// `limit`: one row per text, each with at least the opening and the closing
/// token and at most `limit` tokens.
pub open spec fn well_encoded(rows: Seq<Seq<i64>>, count: nat, limit: nat) -> bool {
    &&& rows.len() == count
    &&& forall|i: int| 0 <= i < rows.len() ==> 2 <= (#[trigger] rows[i]).len() <= limit
}

/// Whether `batch` is the padded encoding of `count` texts.
pub open spec fn is_prepared(batch: Seq<Seq<i64>>, count: nat) -> bool {
    exists|rows: Seq<Seq<i64>>|
        well_encoded(rows, count, MAX_TOKENS as nat) && batch == #[trigger] padded(rows)
}

/// Whether the batch and the scores agree on the number of texts and on the
/// number of positions of each.
pub open spec fn same_shape(batch: Seq<Seq<i64>>, scores: Seq<Seq<Seq<u64>>>) -> bool {
    &&& batch.len() == scores.len()
    &&& forall|b: int| 0 <= b < batch.len() ==> (#[trigger] batch[b]).len() == scores[b].len()
}

/// What extracting entities from a batch and its scores comes to.
pub open spec fn extraction(
    tokenizer: &BertTokenizer,
    names: Map<int, Seq<char>>,
    batch: Seq<Seq<i64>>,
    scores: Seq<Seq<Seq<u64>>>,
) -> Result<Seq<EntityView>, Error> {
    if !same_shape(batch, scores) {
        Err(Error::ShapeMismatch)
    } else {
        match lookup(predictions(scores), names) {
            Ok(tags) => assembled(tokenizer, batch, tags),
            Err(e) => Err(e),
        }
    }
}

/// What the cells a model handed back for a batch come to: they are refused
/// unless they make a score tensor, and otherwise entities are extracted.
pub open spec fn scored(
    tokenizer: &BertTokenizer,
    names: Map<int, Seq<char>>,
    batch: Seq<Seq<i64>>,
    cells: Seq<Seq<Seq<u64>>>,
) -> Result<Seq<EntityView>, Error> {
    if valid_scores(cells) {
        extraction(tokenizer, names, batch, cells)
    } else {
        Err(Error::MalformedScores)
    }
}

/// A batch that encodes at least one text is between two and `limit` tokens
/// wide.
pub proof fn lemma_encoded_width(rows: Seq<Seq<i64>>, count: nat, limit: nat)
    requires
        well_encoded(rows, count, limit),
        count > 0,
    ensures
        2 <= max_len(rows) <= limit,
{
    let i = lemma_max_len_attained(rows);
}

/// The padded encoding of at least one text is a rectangle with one row per
/// text, between two and [`MAX_TOKENS`] cells wide.
pub proof fn lemma_prepared_shape(batch: Seq<Seq<i64>>, count: nat) -> (width: nat)
    requires
        is_prepared(batch, count),
        count > 0,
    ensures
        is_rectangle(batch, count, width),
        2 <= width <= MAX_TOKENS,
{
    let rows = choose|rows: Seq<Seq<i64>>|
        well_encoded(rows, count, MAX_TOKENS as nat) && batch == #[trigger] padded(rows);
    lemma_encoded_width(rows, count, MAX_TOKENS as nat);
    lemma_padded_shape(rows);
    max_len(rows)
}

/// Where batch and scores agree in shape, every prediction lies inside the
/// batch, so extraction fails only on a label without a name.
pub proof fn lemma_extraction_outcome(
    tokenizer: &BertTokenizer,
    names: Map<int, Seq<char>>,
    batch: Seq<Seq<i64>>,
    scores: Seq<Seq<Seq<u64>>>,
)
    requires
        same_shape(batch, scores),
    ensures
        extraction(tokenizer, names, batch, scores) == (match lookup(predictions(scores), names) {
            Ok(tags) => Ok::<Seq<EntityView>, Error>(
                Seq::new(tags.len(), |k: int| entity_of(tokenizer, batch, tags[k])),
            ),
            Err(e) => Err(e),
        }),
        all_mapped(predictions(scores), names) ==> extraction(tokenizer, names, batch, scores) is Ok,
        predictions(scores).len() == 0 ==> extraction(tokenizer, names, batch, scores) == Ok::<
            Seq<EntityView>,
            Error,
        >(Seq::empty()),
{
    let found = predictions(scores);
    if all_mapped(found, names) {
        let tags = named(found, names);
        assert forall|k: int| 0 <= k < tags.len() implies in_batch(
            batch,
            (#[trigger] tags[k]).prediction,
        ) by {
            lemma_predictions_are_entities(scores, k);
        }
        if found.len() == 0 {
            assert(Seq::new(tags.len(), |k: int| entity_of(tokenizer, batch, tags[k]))
                =~= Seq::<EntityView>::empty());
        }
    }
}

/// Every extracted entity stands for one prediction, in the order of the
/// predictions: entity `k` has the text of the token at the position of
/// prediction `k`, the name of that prediction's label and its score.  That
/// label is never the one reserved for "no entity", and the score is no
/// greater than one.
pub proof fn lemma_entities_are_predictions(
    tokenizer: &BertTokenizer,
    names: Map<int, Seq<char>>,
    batch: Seq<Seq<i64>>,
    scores: Seq<Seq<Seq<u64>>>,
    k: int,
)
    requires
        valid_scores(scores),
        extraction(tokenizer, names, batch, scores) is Ok,
        0 <= k < extraction(tokenizer, names, batch, scores)->Ok_0.len(),
    ensures
        ({
            let entities = extraction(tokenizer, names, batch, scores)->Ok_0;
            let found = predictions(scores);
            &&& entities.len() == found.len()
            &&& found[k].label_id != NON_ENTITY
            &&& names.contains_key(found[k].label_id)
            &&& in_batch(batch, found[k])
            &&& found[k] == prediction_at(scores, found[k].batch_index, found[k].position_index)
            &&& entities[k].label == names[found[k].label_id]
            &&& entities[k].score == found[k].score
            &&& entities[k].score <= SCORE_ONE
            &&& entities[k].word == token_text(
                tokenizer,
                batch[found[k].batch_index][found[k].position_index],
            )
        }),
{
    lemma_predictions_are_entities(scores, k);
    let found = predictions(scores)[k];
    lemma_argmax_exists(scores[found.batch_index][found.position_index]);
}

/// Extracted entities keep the order of the batch: of two entities, the
/// earlier one comes from an earlier text, or from the same text and a
/// position further left.
pub proof fn lemma_entities_ordered(
    tokenizer: &BertTokenizer,
    names: Map<int, Seq<char>>,
    batch: Seq<Seq<i64>>,
    scores: Seq<Seq<Seq<u64>>>,
    i: int,
    j: int,
)
    requires
        extraction(tokenizer, names, batch, scores) is Ok,
        0 <= i < j < extraction(tokenizer, names, batch, scores)->Ok_0.len(),
    ensures
        extraction(tokenizer, names, batch, scores)->Ok_0.len() == predictions(scores).len(),
        precedes(predictions(scores)[i], predictions(scores)[j]),
{
    lemma_predictions_ordered(scores, i, j);
}

/// Whether `r` is an outcome that `NERModel::extract` may have for the given
/// tokenizer, label names, batch and scores.
pub open spec fn extracts(
    tokenizer: &BertTokenizer,
    names: Map<int, Seq<char>>,
    batch: Seq<Seq<i64>>,
    scores: Seq<Seq<Seq<u64>>>,
    r: Result<Vec<Entity>, Error>,
) -> bool {
    outcome_view(r) == extraction(tokenizer, names, batch, scores)
}

/// Extraction has one outcome: two runs on the same tokenizer, label names,
/// batch and scores fail with the same error or give the same entities.
pub proof fn lemma_extract_deterministic(
    tokenizer: &BertTokenizer,
    names: Map<int, Seq<char>>,
    batch: Seq<Seq<i64>>,
    scores: Seq<Seq<Seq<u64>>>,
    first: Result<Vec<Entity>, Error>,
    second: Result<Vec<Entity>, Error>,
)
    requires
        extracts(tokenizer, names, batch, scores, first),
        extracts(tokenizer, names, batch, scores, second),
    ensures
        outcome_view(first) == outcome_view(second),
        first is Ok ==> second is Ok && first->Ok_0.len() == second->Ok_0.len() && forall|k: int|
            0 <= k < first->Ok_0.len() ==> (#[trigger] first->Ok_0[k])@ == second->Ok_0[k]@,
        first is Err ==> second == first,
{
    if first is Ok {
        let a = entity_views(first->Ok_0@);
        let b = entity_views(second->Ok_0@);
        assert(a == b);
        assert forall|k: int| 0 <= k < first->Ok_0.len() implies (#[trigger] first->Ok_0[k])@
            == second->Ok_0[k]@ by {
            assert(a[k] == b[k]);
        }
    }
}

/// A named-entity recogniser without its model: the tokenizer that encodes
/// the texts and gives tokens their text back, and the names of the labels.
pub struct NERModel {
    tokenizer: BertTokenizer,
    label_mapping: HashMap<i64, String>,
}

impl NERModel {
    #[verifier::type_invariant]
    spec fn well_formed(self) -> bool {
        knows_unknown_token(&self.tokenizer)
    }

    /// The tokenizer the model was built with.
    pub closed spec fn tokenizer(&self) -> &BertTokenizer {
        &self.tokenizer
    }

    /// The names of the labels the model was built with.
    pub closed spec fn names(&self) -> Map<int, Seq<char>> {
        label_names(self.label_mapping@)
    }

    /// The label mapping the model was built with.
    pub fn label_mapping(&self) -> (mapping: &HashMap<i64, String>)
        ensures
            label_names(mapping@) == self.names(),
    {
        &self.label_mapping
    }

    /// The label identifiers the model has names for, in ascending order.  A
    /// prediction of any other label, but for the one reserved for "no
    /// entity", fails with [`Error::UnmappedLabel`].
    pub fn known_labels(&self) -> (ids: Vec<i64>)
        ensures
            ascending(ids@),
            forall|id: i64| #[trigger] ids@.contains(id) <==> self.names().contains_key(id as int),
    {
        label_ids(&self.label_mapping)
    }

    /// Builds a recogniser from a tokenizer and the label mapping of a model
    /// configuration.
    ///
    /// A tokenizer whose vocabulary cannot resolve an unknown token is refused
    /// with [`Error::MalformedVocabulary`], and after that a configuration
    /// without a label mapping with [`Error::MissingLabelMapping`].
    pub fn new(tokenizer: BertTokenizer, label_mapping: Option<HashMap<i64, String>>) -> (r: Result<
        NERModel,
        Error,
    >)
        ensures
            !knows_unknown_token(&tokenizer) ==> r == Err::<NERModel, Error>(
                Error::MalformedVocabulary,
            ),
            knows_unknown_token(&tokenizer) && label_mapping is None ==> r == Err::<NERModel, Error>(
                Error::MissingLabelMapping,
            ),
            knows_unknown_token(&tokenizer) && label_mapping is Some ==> r is Ok
                && r->Ok_0.tokenizer() == tokenizer && r->Ok_0.names() == label_names(
                label_mapping->Some_0@,
            ),
    {
        if !has_unknown_token(&tokenizer) {
            return Err(Error::MalformedVocabulary);
        }
        match label_mapping {
            Some(label_mapping) => Ok(NERModel { tokenizer, label_mapping }),
            None => Err(Error::MissingLabelMapping),
        }
    }

    /// The batch builder: encodes every text, truncating to [`MAX_TOKENS`]
    /// tokens, and right-pads the rows to the length of the longest.
    ///
    /// Fails with [`Error::EmptyBatch`] if there is no text, and not otherwise.
    pub fn prepare_for_model(&self, input: &[&str]) -> (r: Result<PaddedBatch, Error>)
        ensures
            input.len() == 0 ==> r == Err::<PaddedBatch, Error>(Error::EmptyBatch),
            input.len() > 0 ==> r is Ok && is_prepared(r->Ok_0@, input.len() as nat),
    {
        proof {
            use_type_invariant(self);
        }
        if input.len() == 0 {
            return Err(Error::EmptyBatch);
        }
        let rows = encode_longest_first(&self.tokenizer, input, MAX_TOKENS, STRIDE);
        proof {
            let encoded = token_rows(rows@);
            assert(well_encoded(encoded, input.len() as nat, MAX_TOKENS as nat));
            lemma_encoded_width(encoded, input.len() as nat, MAX_TOKENS as nat);
        }
        pad_batch(&rows)
    }

    /// Decodes the scores a model gave for `batch` into entities: one for
    /// every position whose highest-scoring label is not the one reserved for
    /// "no entity", in the order of the batch.
    ///
    /// Fails with [`Error::ShapeMismatch`] if `scores` is not for a batch of
    /// this shape, and otherwise with [`Error::UnmappedLabel`] if a predicted
    /// label has no name.
    pub fn extract(&self, batch: &PaddedBatch, scores: &ScoreTensor) -> (r: Result<Vec<Entity>, Error>)
        ensures
            extracts(self.tokenizer(), self.names(), batch@, scores@, r),
    {
        let (height, width, labels) = scores.shape();
        let batch_height = batch.height();
        let batch_width = batch.width();
        if height != batch_height || width != batch_width {
            proof {
                if height == batch_height {
                    assert(batch@[0].len() == batch_width);
                }
            }
            return Err(Error::ShapeMismatch);
        }
        match decode_labels(scores, &self.label_mapping) {
            Ok(tags) => assemble(&self.tokenizer, batch, &tags),
            Err(e) => Err(e),
        }
    }

    /// Extracts the entities of `input`: encodes and pads the texts, asks
    /// `model` for the scores of the padded batch, and decodes them.
    ///
    /// `model` stands for the forward pass and the normalisation of its
    /// output: for every text and position of the batch it gives one score per
    /// label.
    pub fn predict<M>(&self, input: &[&str], model: M) -> (r: Result<Vec<Entity>, Error>) where
        M: Fn(&PaddedBatch) -> Vec<Vec<Vec<u64>>>,

        requires
            forall|batch: &PaddedBatch| #[trigger] model.requires((batch,)),
        ensures
            input.len() == 0 ==> r == Err::<Vec<Entity>, Error>(Error::EmptyBatch),
            input.len() > 0 ==> exists|batch: PaddedBatch, cells: Vec<Vec<Vec<u64>>>|
                {
                    &&& is_prepared(batch@, input.len() as nat)
                    &&& #[trigger] model.ensures((&batch,), cells)
                    &&& outcome_view(r) == scored(
                        self.tokenizer(),
                        self.names(),
                        batch@,
                        score_cells(cells@),
                    )
                },
    {
        let batch = match self.prepare_for_model(input) {
            Ok(batch) => batch,
            Err(e) => {
                return Err(e);
            },
        };
        match ScoreTensor::new(model(&batch)) {
            Ok(scores) => self.extract(&batch, &scores),
            Err(e) => Err(e),
        }
    }
}

} // verus!
