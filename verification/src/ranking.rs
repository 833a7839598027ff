//! Ranking the labels of a row: highest score first, ties in the order in
//! which the classifier gave them.

use vstd::prelude::*;
use vstd::seq_lib::{to_multiset_build, to_multiset_contains, to_multiset_insert, to_multiset_len};
use crate::prediction::{Label, LabelModel, Score, covers, row_reportable, texts};

verus! {

/// Scores never rise along the row.
pub open spec fn is_ranked(row: Seq<LabelModel>) -> bool {
    forall|i: int, j: int| 0 <= i < j < row.len() ==> row[i].rank >= row[j].rank
}

/// Where an entry of rank `rank` goes in `row`: right behind the last entry
/// whose rank is not lower.
pub open spec fn slot(row: Seq<LabelModel>, rank: u64) -> int
    decreases row.len(),
{
    if row.len() == 0 || row.last().rank >= rank {
        row.len() as int
    } else {
        slot(row.drop_last(), rank)
    }
}

/// `row` with `label` put in at its slot.
pub open spec fn place(row: Seq<LabelModel>, label: LabelModel) -> Seq<LabelModel> {
    row.insert(slot(row, label.rank), label)
}

/// The ranking of a row: its entries placed one after the other, first to last.
pub open spec fn rank_row(row: Seq<LabelModel>) -> Seq<LabelModel>
    decreases row.len(),
{
    if row.len() == 0 {
        row
    } else {
        place(rank_row(row.drop_last()), row.last())
    }
}

/// The rows of a prediction, each ranked.
pub open spec fn rank_rows(rows: Seq<Seq<LabelModel>>) -> Seq<Seq<LabelModel>> {
    Seq::new(rows.len(), |i: int| rank_row(rows[i]))
}

/// The slot lies inside the row, every entry from it on has a lower rank, and
/// the entry before it has not.
pub proof fn lemma_slot_bounds(row: Seq<LabelModel>, rank: u64)
    ensures
        0 <= slot(row, rank) <= row.len(),
        forall|i: int| slot(row, rank) <= i < row.len() ==> row[i].rank < rank,
        slot(row, rank) > 0 ==> row[slot(row, rank) - 1].rank >= rank,
    decreases row.len(),
{
    if row.len() == 0 || row.last().rank >= rank {
    } else {
        let rest = row.drop_last();
        lemma_slot_bounds(rest, rank);
        assert forall|i: int| slot(row, rank) <= i < row.len() implies row[i].rank < rank by {
            if i < rest.len() {
                assert(rest[i] == row[i]);
            }
        }
    }
}

/// A position with the properties of the slot is the slot.
pub proof fn lemma_slot_found(row: Seq<LabelModel>, rank: u64, p: int)
    requires
        0 <= p <= row.len(),
        forall|i: int| p <= i < row.len() ==> row[i].rank < rank,
        p > 0 ==> row[p - 1].rank >= rank,
    ensures
        p == slot(row, rank),
    decreases row.len(),
{
    if row.len() == 0 {
    } else if p == row.len() {
    } else {
        lemma_slot_found(row.drop_last(), rank, p);
    }
}

/// Placing an entry into a ranked row leaves it ranked.
pub proof fn lemma_place_keeps_ranked(row: Seq<LabelModel>, label: LabelModel)
    requires
        is_ranked(row),
    ensures
        is_ranked(place(row, label)),
{
    lemma_slot_bounds(row, label.rank);
    let p = slot(row, label.rank);
    let placed = place(row, label);
    assert forall|i: int, j: int| 0 <= i < j < placed.len() implies placed[i].rank
        >= placed[j].rank by {
        if j < p {
            assert(placed[i] == row[i] && placed[j] == row[j]);
        } else if j == p {
            assert(placed[i] == row[i]);
            assert(row[i].rank >= row[p - 1].rank);
        } else if i < p {
            assert(placed[i] == row[i] && placed[j] == row[j - 1]);
        } else if i == p {
            assert(placed[j] == row[j - 1]);
        } else {
            assert(placed[i] == row[i - 1] && placed[j] == row[j - 1]);
        }
    }
}

/// Within every ranked row, scores are in non-increasing order.
pub proof fn law_ranking_orders_scores(row: Seq<LabelModel>)
    ensures
        is_ranked(rank_row(row)),
    decreases row.len(),
{
    if row.len() > 0 {
        law_ranking_orders_scores(row.drop_last());
        lemma_place_keeps_ranked(rank_row(row.drop_last()), row.last());
    }
}

/// Ranking neither drops nor repeats an entry: the ranked row holds exactly
/// the entries of the row, each as often, so it has the row's length.
pub proof fn law_ranking_keeps_entries(row: Seq<LabelModel>)
    ensures
        rank_row(row).to_multiset() == row.to_multiset(),
        rank_row(row).len() == row.len(),
    decreases row.len(),
{
    if row.len() > 0 {
        let rest = row.drop_last();
        law_ranking_keeps_entries(rest);
        lemma_slot_bounds(rank_row(rest), row.last().rank);
        to_multiset_insert(rank_row(rest), slot(rank_row(rest), row.last().rank), row.last());
        to_multiset_build(rest, row.last());
        assert(rest.push(row.last()) =~= row);
    }
}

/// Ranking keeps the labels: a row that scores exactly the candidate labels
/// still does so once it is ranked.
pub proof fn law_ranking_keeps_labels(row: Seq<LabelModel>, labels: Seq<Seq<char>>)
    ensures
        texts(rank_row(row)).to_multiset() == texts(row).to_multiset(),
        covers(row, labels) ==> covers(rank_row(row), labels),
    decreases row.len(),
{
    if row.len() == 0 {
        assert(texts(rank_row(row)) =~= texts(row));
    } else {
        let rest = row.drop_last();
        let ranked = rank_row(rest);
        let p = slot(ranked, row.last().rank);
        law_ranking_keeps_labels(rest, labels);
        lemma_slot_bounds(ranked, row.last().rank);
        assert(texts(ranked.insert(p, row.last())) =~= texts(ranked).insert(p, row.last().text));
        to_multiset_insert(texts(ranked), p, row.last().text);
        to_multiset_build(texts(rest), row.last().text);
        assert(texts(rest).push(row.last().text) =~= texts(row));
    }
}

/// A row that is ranked already is its own ranking.
pub proof fn law_ranking_fixes_ranked_rows(row: Seq<LabelModel>)
    requires
        is_ranked(row),
    ensures
        rank_row(row) == row,
    decreases row.len(),
{
    if row.len() > 0 {
        let rest = row.drop_last();
        assert(is_ranked(rest));
        law_ranking_fixes_ranked_rows(rest);
        assert(slot(rest, row.last().rank) == rest.len());
        assert(rest.insert(rest.len() as int, row.last()) =~= row);
    }
}

/// Ranking a row twice is ranking it once.
pub proof fn law_ranking_is_idempotent(row: Seq<LabelModel>)
    ensures
        rank_row(rank_row(row)) == rank_row(row),
{
    law_ranking_orders_scores(row);
    law_ranking_fixes_ranked_rows(rank_row(row));
}

/// Every entry of the ranked row is an entry of the row.
pub proof fn lemma_ranked_entries_come_from_row(row: Seq<LabelModel>, j: int)
    requires
        0 <= j < rank_row(row).len(),
    ensures
        row.contains(rank_row(row)[j]),
{
    law_ranking_keeps_entries(row);
    let ranked = rank_row(row);
    assert(ranked.contains(ranked[j]));
    to_multiset_contains(ranked, ranked[j]);
    to_multiset_contains(row, ranked[j]);
}

/// A row that can be reported can still be reported once it is ranked.
pub proof fn lemma_ranking_keeps_reportable(batch: int, row: Seq<LabelModel>)
    requires
        row_reportable(batch, row),
    ensures
        row_reportable(batch, rank_row(row)),
{
    law_ranking_keeps_entries(row);
    let ranked = rank_row(row);
    assert forall|j: int| 0 <= j < ranked.len() implies 0 <= (#[trigger] ranked[j]).sentence
        < batch by {
        lemma_ranked_entries_come_from_row(row, j);
        let k = choose|k: int| 0 <= k < row.len() && row[k] == ranked[j];
        assert(0 <= row[k].sentence < batch);
    }
}

/// A copy of `label`.
fn copy_label(label: &Label) -> (copy: Label)
    ensures
        copy@ == label@,
{
    Label {
        text: label.text.clone(),
        score: Score { rank: label.score.rank, digits: label.score.digits.clone() },
        sentence: label.sentence,
    }
}

/// Ranks the labels of one row: highest score first, and labels of equal
/// score in the order in which they came.
pub fn rank_labels(row: &Vec<Label>) -> (ranked: Vec<Label>)
    ensures
        ranked.deep_view() == rank_row(row.deep_view()),
        is_ranked(ranked.deep_view()),
        ranked.deep_view().to_multiset() == row.deep_view().to_multiset(),
        ranked.len() == row.len(),
{
    let ghost all = row.deep_view();
    proof {
        law_ranking_orders_scores(all);
        law_ranking_keeps_entries(all);
    }
    let mut ranked: Vec<Label> = Vec::new();
    let mut k: usize = 0;
    assert(all.take(0) =~= Seq::<LabelModel>::empty());
    assert(ranked.deep_view() =~= rank_row(all.take(0)));
    while k < row.len()
        invariant
            k <= row.len(),
            all == row.deep_view(),
            ranked.deep_view() == rank_row(all.take(k as int)),
        decreases row.len() - k,
    {
        let label = copy_label(&row[k]);
        let ghost before = ranked.deep_view();
        let mut p: usize = ranked.len();
        while p > 0 && ranked[p - 1].score.rank < label.score.rank
            invariant
                p <= ranked.len(),
                before == ranked.deep_view(),
                forall|i: int| p <= i < ranked.len() ==> before[i].rank < label@.rank,
            decreases p,
        {
            p -= 1;
        }
        proof {
            lemma_slot_found(before, label@.rank, p as int);
        }
        ranked.insert(p, label);
        proof {
            let next = all.take(k as int + 1);
            assert(next.drop_last() =~= all.take(k as int));
            assert(next.last() == row@[k as int]@);
            assert(ranked.deep_view() =~= before.insert(p as int, next.last()));
        }
        k += 1;
    }
    assert(all.take(row.len() as int) =~= all);
    ranked
}

/// Ranks every row of a prediction, keeping the rows in their order.
pub fn rank_all(outputs: &Vec<Vec<Label>>) -> (ranked: Vec<Vec<Label>>)
    ensures
        ranked.deep_view() == rank_rows(outputs.deep_view()),
{
    let mut ranked: Vec<Vec<Label>> = Vec::new();
    let mut i: usize = 0;
    while i < outputs.len()
        invariant
            i <= outputs.len(),
            ranked.len() == i,
            forall|k: int| 0 <= k < i ==> #[trigger] ranked@[k].deep_view() == rank_row(
                outputs@[k].deep_view(),
            ),
        decreases outputs.len() - i,
    {
        let row = rank_labels(&outputs[i]);
        ranked.push(row);
        i += 1;
    }
    assert(ranked.deep_view() =~= rank_rows(outputs.deep_view()));
    ranked
}

} // verus!
