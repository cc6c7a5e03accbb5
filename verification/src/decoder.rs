//! The label decoder: from scores to the labelled positions of a batch.

use vstd::prelude::*;
use vstd::std_specs::hash::spec_keys_iter;
use vstd::std_specs::iter::IteratorSpec;
use std::collections::HashMap;
use crate::error::Error;
use crate::scores::{argmax, has_shape, select, valid_scores, ScoreTensor};

verus! {

/// The label identifier that means "not part of any entity".
pub const NON_ENTITY: i64 = 0;

/// A position of the batch together with the label the model scored highest
/// there, and that score.
#[derive(Debug, Clone, Copy, PartialEq, Eq, Structural)]
pub struct Prediction {
    pub batch_index: usize,
    pub position_index: usize,
    pub label_id: i64,
    pub score: u64,
}

/// What a [`Prediction`] stands for.
pub struct PredictionView {
    pub batch_index: int,
    pub position_index: int,
    pub label_id: int,
    pub score: u64,
}

impl View for Prediction {
    type V = PredictionView;

    open spec fn view(&self) -> PredictionView {
        PredictionView {
            batch_index: self.batch_index as int,
            position_index: self.position_index as int,
            label_id: self.label_id as int,
            score: self.score,
        }
    }
}

/// The views of a sequence of predictions.
pub open spec fn prediction_views(predictions: Seq<Prediction>) -> Seq<PredictionView> {
    Seq::new(predictions.len(), |k: int| predictions[k]@)
}

/// The highest-scoring label at position `p` of text `b`, ties going to the
/// lowest label identifier.
pub open spec fn prediction_at(scores: Seq<Seq<Seq<u64>>>, b: int, p: int) -> PredictionView {
    let label = argmax(scores[b][p]);
    PredictionView { batch_index: b, position_index: p, label_id: label, score: scores[b][p][label] }
}

/// Whether the label chosen at position `p` of text `b` marks an entity.
pub open spec fn is_entity_at(scores: Seq<Seq<Seq<u64>>>, b: int, p: int) -> bool {
    argmax(scores[b][p]) != NON_ENTITY
}

/// The entity predictions among the first `n` positions of text `b`, left to
/// right.
pub open spec fn row_predictions(scores: Seq<Seq<Seq<u64>>>, b: int, n: int) -> Seq<PredictionView>
    decreases n,
{
    if n <= 0 {
        Seq::empty()
    } else if is_entity_at(scores, b, n - 1) {
        row_predictions(scores, b, n - 1).push(prediction_at(scores, b, n - 1))
    } else {
        row_predictions(scores, b, n - 1)
    }
}

/// The entity predictions of the first `m` texts: text after text, and left to
/// right within a text.
pub open spec fn batch_predictions(scores: Seq<Seq<Seq<u64>>>, m: int) -> Seq<PredictionView>
    decreases m,
{
    if m <= 0 {
        Seq::empty()
    } else {
        batch_predictions(scores, m - 1) + row_predictions(scores, m - 1, scores[m - 1].len() as int)
    }
}

/// Every entity prediction of the batch.
pub open spec fn predictions(scores: Seq<Seq<Seq<u64>>>) -> Seq<PredictionView> {
    batch_predictions(scores, scores.len() as int)
}

/// Whether `first` comes before `second` in the order of the batch: an earlier
/// text, or the same text and a position further left.
pub open spec fn precedes(first: PredictionView, second: PredictionView) -> bool {
    ||| first.batch_index < second.batch_index
    ||| (first.batch_index == second.batch_index && first.position_index < second.position_index)
}

proof fn lemma_row_sound(scores: Seq<Seq<Seq<u64>>>, b: int, n: int, k: int)
    requires
        0 <= k < row_predictions(scores, b, n).len(),
    ensures
        0 <= row_predictions(scores, b, n)[k].position_index < n,
        is_entity_at(scores, b, row_predictions(scores, b, n)[k].position_index),
        row_predictions(scores, b, n)[k] == prediction_at(
            scores,
            b,
            row_predictions(scores, b, n)[k].position_index,
        ),
    decreases n,
{
    if n > 0 {
        let before = row_predictions(scores, b, n - 1);
        if k < before.len() {
            lemma_row_sound(scores, b, n - 1, k);
        }
    }
}

proof fn lemma_row_complete(scores: Seq<Seq<Seq<u64>>>, b: int, n: int, p: int) -> (k: int)
    requires
        0 <= p < n,
        is_entity_at(scores, b, p),
    ensures
        0 <= k < row_predictions(scores, b, n).len(),
        row_predictions(scores, b, n)[k] == prediction_at(scores, b, p),
    decreases n,
{
    if p == n - 1 {
        row_predictions(scores, b, n - 1).len() as int
    } else {
        lemma_row_complete(scores, b, n - 1, p)
    }
}

proof fn lemma_row_ordered(scores: Seq<Seq<Seq<u64>>>, b: int, n: int, i: int, j: int)
    requires
        0 <= i < j < row_predictions(scores, b, n).len(),
    ensures
        row_predictions(scores, b, n)[i].position_index < row_predictions(
            scores,
            b,
            n,
        )[j].position_index,
    decreases n,
{
    if n > 0 {
        let before = row_predictions(scores, b, n - 1);
        if j < before.len() {
            lemma_row_ordered(scores, b, n - 1, i, j);
        } else {
            lemma_row_sound(scores, b, n - 1, i);
        }
    }
}

proof fn lemma_batch_sound(scores: Seq<Seq<Seq<u64>>>, m: int, k: int)
    requires
        0 <= k < batch_predictions(scores, m).len(),
    ensures
        ({
            let t = batch_predictions(scores, m)[k];
            &&& 0 <= t.batch_index < m
            &&& 0 <= t.position_index < scores[t.batch_index].len()
            &&& is_entity_at(scores, t.batch_index, t.position_index)
            &&& t == prediction_at(scores, t.batch_index, t.position_index)
        }),
    decreases m,
{
    if m > 0 {
        let before = batch_predictions(scores, m - 1);
        if k < before.len() {
            lemma_batch_sound(scores, m - 1, k);
        } else {
            lemma_row_sound(scores, m - 1, scores[m - 1].len() as int, k - before.len());
        }
    }
}

proof fn lemma_batch_complete(scores: Seq<Seq<Seq<u64>>>, m: int, b: int, p: int) -> (k: int)
    requires
        0 <= b < m,
        0 <= p < scores[b].len(),
        is_entity_at(scores, b, p),
    ensures
        0 <= k < batch_predictions(scores, m).len(),
        batch_predictions(scores, m)[k] == prediction_at(scores, b, p),
    decreases m,
{
    if b == m - 1 {
        let k = lemma_row_complete(scores, b, scores[b].len() as int, p);
        batch_predictions(scores, m - 1).len() + k
    } else {
        lemma_batch_complete(scores, m - 1, b, p)
    }
}

proof fn lemma_batch_ordered(scores: Seq<Seq<Seq<u64>>>, m: int, i: int, j: int)
    requires
        0 <= i < j < batch_predictions(scores, m).len(),
    ensures
        precedes(batch_predictions(scores, m)[i], batch_predictions(scores, m)[j]),
    decreases m,
{
    if m > 0 {
        let before = batch_predictions(scores, m - 1);
        let width = scores[m - 1].len() as int;
        if j < before.len() {
            lemma_batch_ordered(scores, m - 1, i, j);
        } else if i < before.len() {
            lemma_batch_sound(scores, m - 1, i);
            lemma_row_sound(scores, m - 1, width, j - before.len());
        } else {
            lemma_row_sound(scores, m - 1, width, i - before.len());
            lemma_row_sound(scores, m - 1, width, j - before.len());
            lemma_row_ordered(scores, m - 1, width, i - before.len(), j - before.len());
        }
    }
}

/// Each prediction sits at a position of the batch, carries the label that
/// scores highest there together with that score, and that label is never the
/// one reserved for "no entity".
pub proof fn lemma_predictions_are_entities(scores: Seq<Seq<Seq<u64>>>, k: int)
    requires
        0 <= k < predictions(scores).len(),
    ensures
        ({
            let t = predictions(scores)[k];
            &&& 0 <= t.batch_index < scores.len()
            &&& 0 <= t.position_index < scores[t.batch_index].len()
            &&& t == prediction_at(scores, t.batch_index, t.position_index)
            &&& t.label_id != NON_ENTITY
        }),
{
    lemma_batch_sound(scores, scores.len() as int, k);
}

/// Each position whose highest-scoring label marks an entity has its
/// prediction: the index the lemma returns is where.
pub proof fn lemma_predictions_complete(scores: Seq<Seq<Seq<u64>>>, b: int, p: int) -> (k: int)
    requires
        0 <= b < scores.len(),
        0 <= p < scores[b].len(),
        is_entity_at(scores, b, p),
    ensures
        0 <= k < predictions(scores).len(),
        predictions(scores)[k] == prediction_at(scores, b, p),
{
    lemma_batch_complete(scores, scores.len() as int, b, p)
}

/// Predictions come in the order of the batch: those of a text before those of
/// every later text, and within a text from left to right.
pub proof fn lemma_predictions_ordered(scores: Seq<Seq<Seq<u64>>>, i: int, j: int)
    requires
        0 <= i < j < predictions(scores).len(),
    ensures
        precedes(predictions(scores)[i], predictions(scores)[j]),
{
    lemma_batch_ordered(scores, scores.len() as int, i, j);
}

/// Picks, for every position of the batch, the label with the highest score
/// (the lowest identifier among equals) and keeps the positions where that
/// label is not [`NON_ENTITY`].
pub fn select_labels(scores: &ScoreTensor) -> (out: Vec<Prediction>)
    ensures
        prediction_views(out@) == predictions(scores@),
{
    let (height, width, labels) = scores.shape();
    let mut out: Vec<Prediction> = Vec::new();
    let mut b: usize = 0;
    while b < height
        invariant
            b <= height,
            valid_scores(scores@),
            has_shape(scores@, height as nat, width as nat, labels as nat),
            prediction_views(out@) == batch_predictions(scores@, b as int),
        decreases height - b,
    {
        let mut p: usize = 0;
        while p < width
            invariant
                b < height,
                p <= width,
                valid_scores(scores@),
                has_shape(scores@, height as nat, width as nat, labels as nat),
                prediction_views(out@) == batch_predictions(scores@, b as int) + row_predictions(
                    scores@,
                    b as int,
                    p as int,
                ),
            decreases width - p,
        {
            let cell = scores.cell(b, p);
            let ghost before = prediction_views(out@);
            if let Some(label) = select(cell) {
                if label != 0 {
                    let found = Prediction {
                        batch_index: b,
                        position_index: p,
                        label_id: label as i64,
                        score: cell[label],
                    };
                    out.push(found);
                    assert(prediction_views(out@) =~= before.push(found@));
                }
            }
            p += 1;
        }
        b += 1;
    }
    out
}

/// A labelled position: a prediction together with the name of its label.
#[derive(Debug, Clone, PartialEq, Eq)]
pub struct TokenLabel {
    pub prediction: Prediction,
    pub label: String,
}

/// What a [`TokenLabel`] stands for.
pub struct TokenLabelView {
    pub prediction: PredictionView,
    pub label: Seq<char>,
}

impl View for TokenLabel {
    type V = TokenLabelView;

    open spec fn view(&self) -> TokenLabelView {
        TokenLabelView { prediction: self.prediction@, label: self.label@ }
    }
}

/// The views of a sequence of labelled positions.
pub open spec fn token_label_views(tags: Seq<TokenLabel>) -> Seq<TokenLabelView> {
    Seq::new(tags.len(), |k: int| tags[k]@)
}

/// The label mapping as a map from label identifiers to the characters of
/// their names.
pub open spec fn label_names(mapping: Map<i64, String>) -> Map<int, Seq<char>> {
    Map::new(
        |id: int| i64::MIN <= id <= i64::MAX && mapping.contains_key(id as i64),
        |id: int| mapping[id as i64]@,
    )
}

/// Whether `predictions[k]` is the first prediction whose label `names` does
/// not name.
pub open spec fn is_first_unmapped(
    predictions: Seq<PredictionView>,
    names: Map<int, Seq<char>>,
    k: int,
) -> bool {
    &&& 0 <= k < predictions.len()
    &&& !names.contains_key(predictions[k].label_id)
    &&& forall|j: int| 0 <= j < k ==> names.contains_key(#[trigger] predictions[j].label_id)
}

/// Whether `names` names the label of every prediction.
pub open spec fn all_mapped(predictions: Seq<PredictionView>, names: Map<int, Seq<char>>) -> bool {
    forall|k: int| 0 <= k < predictions.len() ==> names.contains_key(#[trigger] predictions[k].label_id)
}

/// Each prediction paired with the name of its label.
pub open spec fn named(predictions: Seq<PredictionView>, names: Map<int, Seq<char>>) -> Seq<
    TokenLabelView,
> {
    Seq::new(
        predictions.len(),
        |k: int| TokenLabelView { prediction: predictions[k], label: names[predictions[k].label_id] },
    )
}

/// What looking up the labels of `predictions` in `names` comes to: the
/// labelled positions, or the first label without a name.
pub open spec fn lookup(predictions: Seq<PredictionView>, names: Map<int, Seq<char>>) -> Result<
    Seq<TokenLabelView>,
    Error,
> {
    if all_mapped(predictions, names) {
        Ok(named(predictions, names))
    } else {
        let k = choose|k: int| is_first_unmapped(predictions, names, k);
        Err(Error::UnmappedLabel { label_id: predictions[k].label_id as i64 })
    }
}

/// At most one prediction is the first without a name.
pub proof fn lemma_first_unmapped_unique(
    predictions: Seq<PredictionView>,
    names: Map<int, Seq<char>>,
    a: int,
    b: int,
)
    requires
        is_first_unmapped(predictions, names, a),
        is_first_unmapped(predictions, names, b),
    ensures
        a == b,
{
}

/// The outcome of a lookup, with the labelled positions taken by their views.
pub open spec fn lookup_view(r: Result<Vec<TokenLabel>, Error>) -> Result<Seq<TokenLabelView>, Error> {
    match r {
        Ok(tags) => Ok(token_label_views(tags@)),
        Err(e) => Err(e),
    }
}

/// Resolves the label of every prediction to its name.
///
/// Fails on the first prediction, in the order given, whose label
/// `label_mapping` does not name, and reports that label.
pub fn name_labels(predictions: &Vec<Prediction>, label_mapping: &HashMap<i64, String>) -> (r:
    Result<Vec<TokenLabel>, Error>)
    ensures
        lookup_view(r) == lookup(prediction_views(predictions@), label_names(label_mapping@)),
{
    broadcast use vstd::std_specs::hash::group_hash_axioms;

    let ghost views = prediction_views(predictions@);
    let ghost names = label_names(label_mapping@);
    let mut out: Vec<TokenLabel> = Vec::new();
    let mut k: usize = 0;
    while k < predictions.len()
        invariant
            k <= predictions.len(),
            out.len() == k,
            views == prediction_views(predictions@),
            names == label_names(label_mapping@),
            forall|j: int| 0 <= j < k ==> names.contains_key(#[trigger] views[j].label_id),
            forall|j: int| 0 <= j < k ==> (#[trigger] out[j])@ == named(views, names)[j],
        decreases predictions.len() - k,
    {
        let prediction = predictions[k];
        match label_mapping.get(&prediction.label_id) {
            Some(name) => {
                out.push(TokenLabel { prediction, label: name.clone() });
            },
            None => {
                proof {
                    assert(is_first_unmapped(views, names, k as int));
                    let chosen = choose|c: int| is_first_unmapped(views, names, c);
                    lemma_first_unmapped_unique(views, names, chosen, k as int);
                }
                return Err(Error::UnmappedLabel { label_id: prediction.label_id });
            },
        }
        k += 1;
    }
    assert(token_label_views(out@) =~= named(views, names));
    Ok(out)
}

/// Whether every identifier is smaller than the ones after it.
pub open spec fn ascending(ids: Seq<i64>) -> bool {
    forall|i: int, j: int| 0 <= i < j < ids.len() ==> ids[i] < ids[j]
}

/// Puts `id` at its place among `ids`, unless it is there already.
fn insert_ascending(ids: &mut Vec<i64>, id: i64)
    requires
        ascending(old(ids)@),
    ensures
        ascending(final(ids)@),
        forall|x: i64| #[trigger] final(ids)@.contains(x) <==> (old(ids)@.contains(x) || x == id),
{
    let mut at: usize = 0;
    while at < ids.len() && ids[at] < id
        invariant
            at <= ids.len(),
            ids@ == old(ids)@,
            forall|j: int| 0 <= j < at ==> ids[j] < id,
        decreases ids.len() - at,
    {
        at += 1;
    }
    if at == ids.len() || ids[at] != id {
        let ghost before = ids@;
        ids.insert(at, id);
        assert forall|x: i64| #[trigger] ids@.contains(x) <==> (before.contains(x) || x == id) by {
            if ids@.contains(x) {
                let j = choose|j: int| 0 <= j < ids@.len() && ids@[j] == x;
                if j < at {
                    assert(before[j] == x);
                } else if j > at {
                    assert(before[j - 1] == x);
                }
            }
            if before.contains(x) {
                let j = choose|j: int| 0 <= j < before.len() && before[j] == x;
                if j < at {
                    assert(ids@[j] == x);
                } else {
                    assert(ids@[j + 1] == x);
                }
            }
            if x == id {
                assert(ids@[at as int] == x);
            }
        }
    } else {
        assert(ids@[at as int] == id);
    }
}

/// The label identifiers that `label_mapping` names, in ascending order: the
/// labels a model may predict without failing the lookup.
pub fn label_ids(label_mapping: &HashMap<i64, String>) -> (ids: Vec<i64>)
    ensures
        ascending(ids@),
        forall|id: i64| #[trigger] ids@.contains(id) <==> label_mapping@.contains_key(id),
{
    broadcast use vstd::std_specs::hash::group_hash_axioms;

    let ghost keys = spec_keys_iter(label_mapping).remaining();
    let mut ids: Vec<i64> = Vec::new();
    for key in walk: label_mapping.keys()
        invariant
            walk.seq() == keys,
            ascending(ids@),
            forall|id: i64| #[trigger]
                ids@.contains(id) <==> (exists|j: int| 0 <= j < walk.index() && *keys[j] == id),
    {
        insert_ascending(&mut ids, *key);
    }
    proof {
        assert(keys.unref().to_set() == label_mapping@.dom());
        assert forall|id: i64| #[trigger] ids@.contains(id) <==> label_mapping@.contains_key(id) by {
            if ids@.contains(id) {
                let j = choose|j: int| 0 <= j < keys.len() && *keys[j] == id;
                assert(keys.unref()[j] == id);
                assert(keys.unref().to_set().contains(id));
            }
            if label_mapping@.contains_key(id) {
                assert(keys.unref().to_set().contains(id));
                let j = choose|j: int| 0 <= j < keys.unref().len() && keys.unref()[j] == id;
                assert(*keys[j] == id);
            }
        }
    }
    ids
}

/// The label decoder: selects a label per position, drops the positions
/// labelled [`NON_ENTITY`], and names the labels that are left.
pub fn decode_labels(scores: &ScoreTensor, label_mapping: &HashMap<i64, String>) -> (r: Result<
    Vec<TokenLabel>,
    Error,
>)
    ensures
        lookup_view(r) == lookup(predictions(scores@), label_names(label_mapping@)),
{
    let found = select_labels(scores);
    name_labels(&found, label_mapping)
}

} // verus!
