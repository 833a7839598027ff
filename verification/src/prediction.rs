//! What a classifier hands back: ranked labels, one row per input sentence.

use vstd::prelude::*;

verus! {

/// An entailment score in the two forms the library reads.
///
/// `rank` orders scores: a larger rank is a higher score. `digits` is the
/// score written out in decimal, as it is shown to the user. The library
/// treats neither as a number: it compares ranks and copies digits.
pub struct Score {
    pub rank: u64,
    pub digits: String,
}

/// The bit that holds the sign in the binary64 pattern of a number.
pub const SIGN_BIT: u64 = 0x8000_0000_0000_0000u64;

/// The rank of the number whose binary64 pattern is `bits`: the pattern with
/// its sign bit set if the number is not negative, and with every bit turned
/// over if it is. Ranks order as the numbers do.
pub open spec fn rank_of(bits: u64) -> u64 {
    if bits & SIGN_BIT == 0 {
        bits | SIGN_BIT
    } else {
        !bits
    }
}

impl Score {
    /// The score whose binary64 pattern is `bits` and which reads `digits`
    /// when written out.
    pub fn from_bits(bits: u64, digits: String) -> (score: Score)
        ensures
            score.rank == rank_of(bits),
            score.digits == digits,
    {
        let rank: u64 = if bits & SIGN_BIT == 0 {
            bits | SIGN_BIT
        } else {
            !bits
        };
        Score { rank, digits }
    }
}

/// Ranks order as the numbers do: among patterns without the sign bit the
/// larger pattern has the higher rank, among patterns with it the smaller
/// one has, every pattern with the sign bit ranks below every pattern
/// without it, and no two patterns share a rank.
pub proof fn law_rank_follows_the_numbers(a: u64, b: u64)
    ensures
        a & SIGN_BIT == 0 && b & SIGN_BIT == 0 ==> (rank_of(a) <= rank_of(b) <==> a <= b),
        a & SIGN_BIT != 0 && b & SIGN_BIT != 0 ==> (rank_of(a) <= rank_of(b) <==> a >= b),
        a & SIGN_BIT != 0 && b & SIGN_BIT == 0 ==> rank_of(a) < rank_of(b),
        rank_of(a) == rank_of(b) ==> a == b,
{
    let s: u64 = SIGN_BIT;
    assert(s == 0x8000_0000_0000_0000u64);
    assert(a & s == 0 && b & s == 0 ==> ((a | s) <= (b | s) <==> a <= b)) by (bit_vector)
        requires
            s == 0x8000_0000_0000_0000u64,
    ;
    assert(a & s != 0 && b & s != 0 ==> (!a <= !b <==> a >= b)) by (bit_vector)
        requires
            s == 0x8000_0000_0000_0000u64,
    ;
    assert(a & s != 0 && b & s == 0 ==> !a < (b | s)) by (bit_vector)
        requires
            s == 0x8000_0000_0000_0000u64,
    ;
    assert(a & s == 0 && b & s != 0 ==> (a | s) != !b) by (bit_vector)
        requires
            s == 0x8000_0000_0000_0000u64,
    ;
    assert(a & s == 0 && b & s == 0 && (a | s) == (b | s) ==> a == b) by (bit_vector)
        requires
            s == 0x8000_0000_0000_0000u64,
    ;
    assert(!a == !b ==> a == b) by (bit_vector);
}

/// One candidate label as scored for one input sentence.
pub struct Label {
    /// The label's text.
    pub text: String,
    /// How strongly the sentence entails the label's hypothesis.
    pub score: Score,
    /// Position of the sentence in the input batch.
    pub sentence: usize,
}

/// The mathematical value of a [`Label`].
pub ghost struct LabelModel {
    pub text: Seq<char>,
    pub rank: u64,
    pub digits: Seq<char>,
    pub sentence: int,
}

impl View for Label {
    type V = LabelModel;

    open spec fn view(&self) -> LabelModel {
        LabelModel {
            text: self.text@,
            rank: self.score.rank,
            digits: self.score.digits@,
            sentence: self.sentence as int,
        }
    }
}

impl DeepView for Label {
    type V = LabelModel;

    open spec fn deep_view(&self) -> LabelModel {
        self@
    }
}

/// A row can be reported against a batch of `batch` sentences: it has an
/// entry, and each of its entries points into the batch.
pub open spec fn row_reportable(batch: int, row: Seq<LabelModel>) -> bool {
    &&& row.len() > 0
    &&& forall|j: int| 0 <= j < row.len() ==> 0 <= (#[trigger] row[j]).sentence < batch
}

/// Every row of the prediction can be reported against the batch.
pub open spec fn reportable(batch: int, rows: Seq<Seq<LabelModel>>) -> bool {
    forall|i: int| 0 <= i < rows.len() ==> row_reportable(batch, #[trigger] rows[i])
}

/// The prediction answers the batch sentence by sentence: it has one row for
/// each of the `batch` sentences, and every entry of row `i` names sentence `i`.
pub open spec fn follows_batch(batch: int, rows: Seq<Seq<LabelModel>>) -> bool {
    &&& rows.len() == batch
    &&& forall|i: int, j: int|
        0 <= i < rows.len() && 0 <= j < rows[i].len() ==> (#[trigger] rows[i][j]).sentence == i
}

/// The label texts of a row, in the row's order.
pub open spec fn texts(row: Seq<LabelModel>) -> Seq<Seq<char>> {
    Seq::new(row.len(), |j: int| row[j].text)
}

/// The row scores exactly the candidate labels: each label as often as it is
/// a candidate, none left out and none added.
pub open spec fn covers(row: Seq<LabelModel>, labels: Seq<Seq<char>>) -> bool {
    texts(row).to_multiset() == labels.to_multiset()
}

/// Decides whether one row can be reported against a batch of `batch` sentences.
pub fn is_row_reportable(batch: usize, row: &Vec<Label>) -> (ok: bool)
    ensures
        ok == row_reportable(batch as int, row.deep_view()),
{
    if row.len() == 0 {
        return false;
    }
    let mut j: usize = 0;
    while j < row.len()
        invariant
            j <= row.len(),
            forall|k: int| 0 <= k < j ==> 0 <= (#[trigger] row.deep_view()[k]).sentence < batch,
        decreases row.len() - j,
    {
        assert(row.deep_view()[j as int] == row@[j as int]@);
        if row[j].sentence >= batch {
            return false;
        }
        j += 1;
    }
    true
}

/// Decides whether a prediction can be reported against a batch of `batch` sentences.
pub fn is_reportable(batch: usize, outputs: &Vec<Vec<Label>>) -> (ok: bool)
    ensures
        ok == reportable(batch as int, outputs.deep_view()),
{
    let mut i: usize = 0;
    while i < outputs.len()
        invariant
            i <= outputs.len(),
            forall|k: int| 0 <= k < i ==> row_reportable(batch as int, #[trigger] outputs.deep_view()[k]),
        decreases outputs.len() - i,
    {
        assert(outputs.deep_view()[i as int] == outputs@[i as int].deep_view());
        if !is_row_reportable(batch, &outputs[i]) {
            return false;
        }
        i += 1;
    }
    true
}

} // verus!
