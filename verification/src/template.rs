//! The hypothesis template that turns a candidate label into a claim.

use vstd::prelude::*;
use vstd::string::StringExecFns;

verus! {

/// The hypothesis that stands for `label`: the fixed opening, the label, a full stop.
pub open spec fn hypothesis(label: Seq<char>) -> Seq<char> {
    "This conversation is about "@ + label + "."@
}

/// Builds the natural-language hypothesis for one candidate label.
pub fn zeroshot_template(label: &str) -> (sentence: String)
    ensures
        sentence@ == hypothesis(label@),
{
    let mut sentence = String::from_str("This conversation is about ");
    sentence.append(label);
    sentence.append(".");
    sentence
}

} // verus!
