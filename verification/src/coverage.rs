//! Deciding whether a prediction is what classifying a batch against a list
//! of candidate labels yields.

use vstd::prelude::*;
use vstd::multiset::group_multiset_axioms;
use vstd::seq_lib::{to_multiset_build, to_multiset_contains, to_multiset_len};
use vstd::string::StringExecFns;
use crate::prediction::{
    Label, LabelModel, covers, follows_batch, reportable, row_reportable, texts,
};
use crate::ranking::{
    is_ranked, law_ranking_keeps_entries, law_ranking_keeps_labels, law_ranking_orders_scores,
    lemma_ranked_entries_come_from_row, rank_row, rank_rows,
};

verus! {

/// The prediction answers a batch of `batch` sentences against `labels`: one
/// row for each sentence, in the order of the batch, each row scoring exactly
/// the candidate labels.
pub open spec fn well_formed(
    batch: int,
    labels: Seq<Seq<char>>,
    rows: Seq<Seq<LabelModel>>,
) -> bool {
    &&& follows_batch(batch, rows)
    &&& forall|i: int| 0 <= i < rows.len() ==> covers(#[trigger] rows[i], labels)
}

/// How often `text` occurs among `items`.
pub open spec fn occurrences(items: Seq<Seq<char>>, text: Seq<char>) -> nat {
    items.to_multiset().count(text)
}

proof fn lemma_occurrences_step(items: Seq<Seq<char>>, n: int, text: Seq<char>)
    requires
        0 <= n < items.len(),
    ensures
        occurrences(items.take(n + 1), text) == occurrences(items.take(n), text) + (if items[n]
            == text {
            1nat
        } else {
            0nat
        }),
{
    broadcast use group_multiset_axioms;

    to_multiset_build(items.take(n), items[n]);
    assert(items.take(n).push(items[n]) =~= items.take(n + 1));
}

/// Counts the entries of `row` whose label is `text`.
fn count_in_row(row: &Vec<Label>, text: &String) -> (n: usize)
    ensures
        n == occurrences(texts(row.deep_view()), text@),
{
    let ghost items = texts(row.deep_view());
    let mut n: usize = 0;
    let mut j: usize = 0;
    assert(occurrences(items.take(0), text@) == 0) by {
        to_multiset_contains(items.take(0), text@);
    }
    while j < row.len()
        invariant
            j <= row.len(),
            items == texts(row.deep_view()),
            n == occurrences(items.take(j as int), text@),
            n <= j,
        decreases row.len() - j,
    {
        proof {
            lemma_occurrences_step(items, j as int, text@);
        }
        if row[j].text == *text {
            n += 1;
        }
        j += 1;
    }
    assert(items.take(row.len() as int) =~= items);
    n
}

/// Counts the candidate labels that read `text`.
fn count_in_labels(labels: &[&str], text: &String) -> (n: usize)
    ensures
        n == occurrences(labels.deep_view(), text@),
{
    let ghost items = labels.deep_view();
    let mut n: usize = 0;
    let mut i: usize = 0;
    assert(occurrences(items.take(0), text@) == 0) by {
        to_multiset_contains(items.take(0), text@);
    }
    while i < labels.len()
        invariant
            i <= labels.len(),
            items == labels.deep_view(),
            n == occurrences(items.take(i as int), text@),
            n <= i,
        decreases labels.len() - i,
    {
        proof {
            lemma_occurrences_step(items, i as int, text@);
        }
        let label = String::from_str(labels[i]);
        if label == *text {
            n += 1;
        }
        i += 1;
    }
    assert(items.take(labels.len() as int) =~= items);
    n
}

/// Decides whether a row scores exactly the candidate labels.
pub fn scores_exactly(row: &Vec<Label>, labels: &[&str]) -> (ok: bool)
    ensures
        ok == covers(row.deep_view(), labels.deep_view()),
{
    let ghost mine = texts(row.deep_view());
    let ghost theirs = labels.deep_view();
    let mut j: usize = 0;
    while j < row.len()
        invariant
            j <= row.len(),
            mine == texts(row.deep_view()),
            theirs == labels.deep_view(),
            forall|k: int| 0 <= k < j ==> occurrences(mine, #[trigger] mine[k]) == occurrences(theirs, mine[k]),
        decreases row.len() - j,
    {
        let text = &row[j].text;
        assert(text@ == mine[j as int]);
        if count_in_row(row, text) != count_in_labels(labels, text) {
            return false;
        }
        j += 1;
    }
    let mut i: usize = 0;
    while i < labels.len()
        invariant
            i <= labels.len(),
            mine == texts(row.deep_view()),
            theirs == labels.deep_view(),
            forall|k: int| 0 <= k < mine.len() ==> occurrences(mine, #[trigger] mine[k]) == occurrences(theirs, mine[k]),
            forall|k: int| 0 <= k < i ==> occurrences(mine, #[trigger] theirs[k]) == occurrences(theirs, theirs[k]),
        decreases labels.len() - i,
    {
        let text = String::from_str(labels[i]);
        assert(text@ == theirs[i as int]);
        if count_in_row(row, &text) != count_in_labels(labels, &text) {
            return false;
        }
        i += 1;
    }
    proof {
        assert forall|text: Seq<char>| mine.to_multiset().count(text) == theirs.to_multiset().count(
            text,
        ) by {
            to_multiset_contains(mine, text);
            to_multiset_contains(theirs, text);
            if mine.contains(text) {
                let k = choose|k: int| 0 <= k < mine.len() && mine[k] == text;
                assert(occurrences(mine, mine[k]) == occurrences(theirs, mine[k]));
            } else if theirs.contains(text) {
                let k = choose|k: int| 0 <= k < theirs.len() && theirs[k] == text;
                assert(occurrences(mine, theirs[k]) == occurrences(theirs, theirs[k]));
            }
        }
        assert(mine.to_multiset() =~= theirs.to_multiset());
    }
    true
}

/// Decides whether a prediction answers a batch of `batch` sentences, row by
/// row in the order of the batch.
pub fn answers_batch(batch: usize, outputs: &Vec<Vec<Label>>) -> (ok: bool)
    ensures
        ok == follows_batch(batch as int, outputs.deep_view()),
{
    if outputs.len() != batch {
        return false;
    }
    let ghost rows = outputs.deep_view();
    let mut i: usize = 0;
    while i < outputs.len()
        invariant
            i <= outputs.len(),
            rows == outputs.deep_view(),
            forall|a: int, b: int|
                0 <= a < i && 0 <= b < rows[a].len() ==> (#[trigger] rows[a][b]).sentence == a,
        decreases outputs.len() - i,
    {
        let row = &outputs[i];
        assert(rows[i as int] == row.deep_view());
        let mut j: usize = 0;
        while j < row.len()
            invariant
                j <= row.len(),
                i < outputs.len(),
                rows == outputs.deep_view(),
                rows[i as int] == row.deep_view(),
                forall|b: int| 0 <= b < j ==> (#[trigger] rows[i as int][b]).sentence == i,
            decreases row.len() - j,
        {
            assert(row.deep_view()[j as int] == row@[j as int]@);
            if row[j].sentence != i {
                return false;
            }
            j += 1;
        }
        i += 1;
    }
    true
}

/// Decides whether a prediction is what classifying a batch of `batch`
/// sentences against `labels` yields.
pub fn is_well_formed(batch: usize, labels: &[&str], outputs: &Vec<Vec<Label>>) -> (ok: bool)
    ensures
        ok == well_formed(batch as int, labels.deep_view(), outputs.deep_view()),
{
    if !answers_batch(batch, outputs) {
        return false;
    }
    let mut i: usize = 0;
    while i < outputs.len()
        invariant
            i <= outputs.len(),
            follows_batch(batch as int, outputs.deep_view()),
            forall|k: int| 0 <= k < i ==> covers(#[trigger] outputs.deep_view()[k], labels.deep_view()),
        decreases outputs.len() - i,
    {
        assert(outputs.deep_view()[i as int] == outputs@[i as int].deep_view());
        if !scores_exactly(&outputs[i], labels) {
            return false;
        }
        i += 1;
    }
    true
}

/// A well-formed prediction against at least one label can be reported.
pub proof fn law_well_formed_is_reportable(
    batch: int,
    labels: Seq<Seq<char>>,
    rows: Seq<Seq<LabelModel>>,
)
    requires
        well_formed(batch, labels, rows),
        labels.len() > 0,
    ensures
        reportable(batch, rows),
{
    assert forall|i: int| 0 <= i < rows.len() implies row_reportable(batch, #[trigger] rows[i]) by {
        assert(covers(rows[i], labels));
        to_multiset_len(texts(rows[i]));
        to_multiset_len(labels);
        assert forall|j: int| 0 <= j < rows[i].len() implies 0 <= (#[trigger] rows[i][j]).sentence
            < batch by {}
    }
}

/// Ranking keeps a prediction well formed and orders every row: the ranked
/// rows still answer the batch in its order, each still scores exactly the
/// candidate labels, and within each the scores never rise.
pub proof fn law_ranking_keeps_well_formed(
    batch: int,
    labels: Seq<Seq<char>>,
    rows: Seq<Seq<LabelModel>>,
)
    requires
        well_formed(batch, labels, rows),
    ensures
        well_formed(batch, labels, rank_rows(rows)),
        forall|i: int| 0 <= i < rows.len() ==> is_ranked(#[trigger] rank_rows(rows)[i]),
{
    let ranked = rank_rows(rows);
    assert forall|i: int| 0 <= i < ranked.len() implies covers(#[trigger] ranked[i], labels) by {
        assert(covers(rows[i], labels));
        law_ranking_keeps_labels(rows[i], labels);
    }
    assert forall|i: int, j: int| 0 <= i < ranked.len() && 0 <= j < ranked[i].len() implies (
    #[trigger] ranked[i][j]).sentence == i by {
        law_ranking_keeps_entries(rows[i]);
        lemma_ranked_entries_come_from_row(rows[i], j);
        let k = choose|k: int| 0 <= k < rows[i].len() && rows[i][k] == rank_row(rows[i])[j];
        assert(rows[i][k].sentence == i);
    }
    assert forall|i: int| 0 <= i < rows.len() implies is_ranked(#[trigger] ranked[i]) by {
        law_ranking_orders_scores(rows[i]);
    }
}

} // verus!
