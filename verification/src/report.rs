//! The textual report of a multi-label prediction.

use vstd::prelude::*;
use vstd::string::StringExecFns;
use crate::prediction::{Label, LabelModel, follows_batch, reportable, row_reportable};
use crate::ranking::{
    lemma_ranked_entries_come_from_row, lemma_ranking_keeps_reportable, law_ranking_keeps_entries,
    rank_all, rank_row, rank_rows,
};

verus! {

/// The three lines that open every report: title, rule, blank line.
pub open spec fn header_text() -> Seq<char> {
    "ZeroShot Results\n"@ + "============================\n"@ + "\n"@
}

/// The line that quotes an input sentence.
pub open spec fn sentence_text(sentence: Seq<char>) -> Seq<char> {
    "- \""@ + sentence + "\"\n"@
}

/// The lines for one scored label: its text, its score, a blank line.
pub open spec fn entry_text(label: LabelModel) -> Seq<char> {
    "\tlabel: "@ + label.text + "\n"@ + "\tscore: "@ + label.digits + "\n"@ + "\n"@
}

/// The entries of a row, in the row's order.
pub open spec fn entries_text(row: Seq<LabelModel>) -> Seq<char>
    decreases row.len(),
{
    if row.len() == 0 {
        Seq::empty()
    } else {
        entries_text(row.drop_last()) + entry_text(row.last())
    }
}

/// One sentence's part of the report: the sentence that the row's first
/// entry points to, then the row's entries.
pub open spec fn block_text(inputs: Seq<Seq<char>>, row: Seq<LabelModel>) -> Seq<char> {
    sentence_text(inputs[row[0].sentence]) + entries_text(row)
}

/// The blocks of all rows, in the order of the rows.
pub open spec fn blocks_text(inputs: Seq<Seq<char>>, rows: Seq<Seq<LabelModel>>) -> Seq<char>
    decreases rows.len(),
{
    if rows.len() == 0 {
        Seq::empty()
    } else {
        blocks_text(inputs, rows.drop_last()) + block_text(inputs, rows.last())
    }
}

/// A block can be written for every row: each row has a first entry, and
/// that entry points into the batch.
pub open spec fn quotable(batch: int, rows: Seq<Seq<LabelModel>>) -> bool {
    forall|i: int|
        0 <= i < rows.len() ==> (#[trigger] rows[i]).len() > 0 && 0 <= rows[i][0].sentence < batch
}

/// The whole report: the header, then one block per row.
pub open spec fn report_text(inputs: Seq<Seq<char>>, rows: Seq<Seq<LabelModel>>) -> Seq<char> {
    header_text() + blocks_text(inputs, rows)
}

/// Appends the entries of `row` to `out`.
fn push_entries(out: &mut String, row: &Vec<Label>)
    ensures
        final(out)@ == old(out)@ + entries_text(row.deep_view()),
{
    let ghost start = out@;
    let ghost all = row.deep_view();
    let mut j: usize = 0;
    assert(all.take(0) =~= Seq::<LabelModel>::empty());
    while j < row.len()
        invariant
            j <= row.len(),
            all == row.deep_view(),
            out@ == start + entries_text(all.take(j as int)),
        decreases row.len() - j,
    {
        let label = &row[j];
        let ghost before = out@;
        out.append("\tlabel: ");
        out.append(label.text.as_str());
        out.append("\n");
        out.append("\tscore: ");
        out.append(label.score.digits.as_str());
        out.append("\n");
        out.append("\n");
        proof {
            let next = all.take(j as int + 1);
            assert(next.drop_last() =~= all.take(j as int));
            assert(next.last() == label@);
            assert(out@ =~= before + entry_text(label@));
            assert(out@ =~= start + entries_text(next));
        }
        j += 1;
    }
    assert(all.take(row.len() as int) =~= all);
}

/// Writes the report of the rows as they stand.
///
/// After the header, each row gives one block: the input sentence that the
/// row's first entry belongs to, quoted, and then every label of the row with
/// its score, in the row's order.
pub fn render_report(outputs: &Vec<Vec<Label>>, inputs: &[&str]) -> (report: String)
    requires
        quotable(inputs@.len() as int, outputs.deep_view()),
    ensures
        report@ == report_text(inputs.deep_view(), outputs.deep_view()),
{
    let ghost rows = outputs.deep_view();
    let ghost batch = inputs.deep_view();
    let mut report = String::from_str("ZeroShot Results\n");
    report.append("============================\n");
    report.append("\n");
    let mut i: usize = 0;
    assert(rows.take(0) =~= Seq::<Seq<LabelModel>>::empty());
    assert(report@ =~= header_text() + blocks_text(batch, rows.take(0)));
    while i < outputs.len()
        invariant
            i <= outputs.len(),
            rows == outputs.deep_view(),
            batch == inputs.deep_view(),
            quotable(inputs@.len() as int, rows),
            report@ == header_text() + blocks_text(batch, rows.take(i as int)),
        decreases outputs.len() - i,
    {
        let row = &outputs[i];
        assert(rows[i as int] == row.deep_view());
        assert(rows[i as int].len() > 0);
        assert(row.deep_view()[0] == row@[0]@);
        let ghost before = report@;
        let at = row[0].sentence;
        let sentence: &str = inputs[at];
        assert(sentence@ == batch[at as int]);
        report.append("- \"");
        report.append(sentence);
        report.append("\"\n");
        push_entries(&mut report, row);
        proof {
            let next = rows.take(i as int + 1);
            assert(next.drop_last() =~= rows.take(i as int));
            assert(next.last() == row.deep_view());
            assert(report@ =~= before + block_text(batch, row.deep_view()));
            assert(report@ =~= header_text() + blocks_text(batch, next));
        }
        i += 1;
    }
    assert(rows.take(outputs.len() as int) =~= rows);
    report
}

/// Reports a multi-label prediction over `inputs`: the header, then for each
/// row the sentence it belongs to and the row's labels, ranked by score,
/// highest first.
pub fn predict_multilabel(outputs: &Vec<Vec<Label>>, inputs: &[&str]) -> (report: String)
    requires
        reportable(inputs@.len() as int, outputs.deep_view()),
    ensures
        report@ == report_text(inputs.deep_view(), rank_rows(outputs.deep_view())),
{
    let ranked = rank_all(outputs);
    proof {
        let rows = outputs.deep_view();
        assert forall|i: int| 0 <= i < rank_rows(rows).len() implies (#[trigger] rank_rows(
            rows,
        )[i]).len() > 0 && 0 <= rank_rows(rows)[i][0].sentence < inputs@.len() by {
            lemma_ranking_keeps_reportable(inputs@.len() as int, rows[i]);
            assert(row_reportable(inputs@.len() as int, rank_row(rows[i])));
        }
    }
    render_report(&ranked, inputs)
}

/// The same prediction over the same batch gives the same ranked rows and
/// the same report.
pub proof fn law_report_is_determined(
    inputs: Seq<Seq<char>>,
    rows: Seq<Seq<LabelModel>>,
    again_inputs: Seq<Seq<char>>,
    again_rows: Seq<Seq<LabelModel>>,
)
    requires
        inputs =~~= again_inputs,
        rows =~~= again_rows,
    ensures
        rank_rows(rows) == rank_rows(again_rows),
        report_text(inputs, rank_rows(rows)) == report_text(again_inputs, rank_rows(again_rows)),
{
}

/// A prediction that answers the batch sentence by sentence, with an entry in
/// every row, can be reported, and the block of row `i` quotes sentence `i`
/// of the batch: the report follows the order of the batch.
pub proof fn law_report_follows_batch_order(inputs: Seq<Seq<char>>, rows: Seq<Seq<LabelModel>>)
    requires
        follows_batch(inputs.len() as int, rows),
        forall|i: int| 0 <= i < rows.len() ==> (#[trigger] rows[i]).len() > 0,
    ensures
        reportable(inputs.len() as int, rows),
        rank_rows(rows).len() == inputs.len(),
        forall|i: int|
            0 <= i < rows.len() ==> block_text(inputs, #[trigger] rank_rows(rows)[i])
                == sentence_text(inputs[i]) + entries_text(rank_row(rows[i])),
{
    assert forall|i: int| 0 <= i < rows.len() implies row_reportable(
        inputs.len() as int,
        #[trigger] rows[i],
    ) by {
        assert(rows[i].len() > 0);
        assert forall|j: int| 0 <= j < rows[i].len() implies 0 <= (#[trigger] rows[i][j]).sentence
            < inputs.len() by {}
    }
    assert forall|i: int| 0 <= i < rows.len() implies block_text(
        inputs,
        #[trigger] rank_rows(rows)[i],
    ) == sentence_text(inputs[i]) + entries_text(rank_row(rows[i])) by {
        let row = rows[i];
        law_ranking_keeps_entries(row);
        lemma_ranked_entries_come_from_row(row, 0);
        let k = choose|k: int| 0 <= k < row.len() && row[k] == rank_row(row)[0];
        assert(rows[i][k].sentence == i);
    }
}

} // verus!
