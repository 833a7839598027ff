use zeroshot::prediction::{is_reportable, is_row_reportable, Label, Score};
use zeroshot::ranking::{rank_all, rank_labels};
use zeroshot::report::{predict_multilabel, render_report};
use zeroshot::template::zeroshot_template;

fn scored(text: &str, score: f64, sentence: usize) -> Label {
    Label {
        text: text.to_string(),
        score: Score::from_bits(score.to_bits(), format!("{}", score)),
        sentence,
    }
}

#[test]
fn template_wraps_the_label() {
    assert_eq!(zeroshot_template("refund"), "This conversation is about refund.");
    assert_eq!(zeroshot_template(""), "This conversation is about .");
    assert_eq!(
        zeroshot_template("customer support"),
        "This conversation is about customer support."
    );
}

#[test]
fn report_of_one_sentence_and_two_labels() {
    let outputs = vec![vec![scored("a", 0.9, 0), scored("b", 0.2, 0)]];
    let report = predict_multilabel(&outputs, &["x"]);
    assert_eq!(
        report,
        "ZeroShot Results\n============================\n\n- \"x\"\n\tlabel: a\n\tscore: 0.9\n\n\tlabel: b\n\tscore: 0.2\n\n"
    );
    let lines: Vec<&str> = report.lines().collect();
    let at = |wanted: &str| lines.iter().position(|l| *l == wanted).unwrap();
    assert!(at("- \"x\"") < at("\tlabel: a"));
    assert!(at("\tlabel: a") < at("\tscore: 0.9"));
    assert!(at("\tscore: 0.9") < at("\tlabel: b"));
    assert!(at("\tlabel: b") < at("\tscore: 0.2"));
}

#[test]
fn report_of_no_rows_is_the_header() {
    let outputs: Vec<Vec<Label>> = Vec::new();
    assert_eq!(
        predict_multilabel(&outputs, &["x", "y"]),
        "ZeroShot Results\n============================\n\n"
    );
    assert_eq!(
        predict_multilabel(&outputs, &[]),
        "ZeroShot Results\n============================\n\n"
    );
}

#[test]
fn report_quotes_the_sentence_of_the_first_entry() {
    let outputs = vec![
        vec![scored("b", 0.75, 1), scored("a", 0.5, 1)],
        vec![scored("a", 1.0, 0)],
    ];
    let report = predict_multilabel(&outputs, &["first", "second"]);
    assert_eq!(
        report,
        "ZeroShot Results\n============================\n\n\
         - \"second\"\n\tlabel: b\n\tscore: 0.75\n\n\tlabel: a\n\tscore: 0.5\n\n\
         - \"first\"\n\tlabel: a\n\tscore: 1\n\n"
    );
}

#[test]
fn report_is_the_same_for_the_same_prediction() {
    let outputs = vec![vec![scored("a", 0.9, 0), scored("b", 0.2, 0)]];
    let again = vec![vec![scored("a", 0.9, 0), scored("b", 0.2, 0)]];
    assert_eq!(predict_multilabel(&outputs, &["x"]), predict_multilabel(&again, &["x"]));
}

#[test]
fn reportable_needs_a_first_entry_inside_the_batch() {
    let good = vec![vec![scored("a", 0.9, 0)], vec![scored("a", 0.1, 1)]];
    assert!(is_reportable(2, &good));
    assert!(!is_reportable(1, &good));
    let empty_row: Vec<Vec<Label>> = vec![vec![scored("a", 0.9, 0)], Vec::new()];
    assert!(!is_reportable(2, &empty_row));
    let none: Vec<Vec<Label>> = Vec::new();
    assert!(is_reportable(0, &none));
    let later_entry_outside = vec![vec![scored("a", 0.9, 0), scored("b", 0.1, 7)]];
    assert!(!is_reportable(1, &later_entry_outside));
    assert!(!is_reportable(7, &later_entry_outside));
    assert!(is_reportable(8, &later_entry_outside));
    assert!(is_row_reportable(1, &[scored("a", 0.9, 0)].into_iter().collect()));
    assert!(!is_row_reportable(1, &Vec::new()));
}

fn names(row: &[Label]) -> Vec<&str> {
    row.iter().map(|l| l.text.as_str()).collect()
}

#[test]
fn ranking_puts_the_highest_score_first() {
    let row = vec![
        scored("product", 0.03, 0),
        scored("customer support", 0.8, 0),
        scored("troubleshooting", 0.95, 0),
        scored("refund", 0.1, 0),
    ];
    let ranked = rank_labels(&row);
    assert_eq!(names(&ranked), vec!["troubleshooting", "customer support", "refund", "product"]);
    let digits: Vec<&str> = ranked.iter().map(|l| l.score.digits.as_str()).collect();
    assert_eq!(digits, vec!["0.95", "0.8", "0.1", "0.03"]);
    assert!(ranked.windows(2).all(|w| w[0].score.rank >= w[1].score.rank));
    assert!(ranked.iter().all(|l| l.sentence == 0));
}

#[test]
fn ranking_keeps_ties_in_the_order_given() {
    let row = vec![
        scored("a", 0.5, 3),
        scored("b", 0.7, 3),
        scored("c", 0.5, 3),
        scored("d", 0.7, 3),
        scored("e", 0.5, 3),
    ];
    assert_eq!(names(&rank_labels(&row)), vec!["b", "d", "a", "c", "e"]);
}

#[test]
fn ranking_keeps_every_label_once() {
    let row = vec![scored("b", 0.2, 0), scored("a", 0.9, 0), scored("c", 0.4, 0)];
    let ranked = rank_labels(&row);
    assert_eq!(ranked.len(), 3);
    let mut seen = names(&ranked);
    seen.sort();
    assert_eq!(seen, vec!["a", "b", "c"]);
}

#[test]
fn ranking_leaves_a_ranked_row_as_it_is() {
    let row = vec![scored("a", 0.9, 1), scored("b", 0.9, 1), scored("c", 0.1, 1)];
    let once = rank_labels(&row);
    assert_eq!(names(&once), vec!["a", "b", "c"]);
    assert_eq!(names(&rank_labels(&once)), vec!["a", "b", "c"]);
    let none: Vec<Label> = Vec::new();
    assert!(rank_labels(&none).is_empty());
}

#[test]
fn ranking_keeps_the_rows_in_batch_order() {
    let rows = vec![
        vec![scored("a", 0.1, 0), scored("b", 0.2, 0)],
        Vec::new(),
        vec![scored("a", 0.4, 2), scored("b", 0.3, 2)],
    ];
    let ranked = rank_all(&rows);
    assert_eq!(ranked.len(), 3);
    assert_eq!(names(&ranked[0]), vec!["b", "a"]);
    assert!(ranked[1].is_empty());
    assert_eq!(names(&ranked[2]), vec!["a", "b"]);
    assert!(ranked[0].iter().all(|l| l.sentence == 0));
    assert!(ranked[2].iter().all(|l| l.sentence == 2));
}

#[test]
fn report_ranks_what_the_classifier_left_unranked() {
    let outputs = vec![vec![scored("b", 0.2, 0), scored("a", 0.9, 0)]];
    assert_eq!(
        predict_multilabel(&outputs, &["x"]),
        "ZeroShot Results\n============================\n\n- \"x\"\n\tlabel: a\n\tscore: 0.9\n\n\tlabel: b\n\tscore: 0.2\n\n"
    );
}

#[test]
fn rendering_keeps_the_rows_as_they_stand() {
    let outputs = vec![vec![scored("b", 0.2, 0), scored("a", 0.9, 0)]];
    assert_eq!(
        render_report(&outputs, &["x"]),
        "ZeroShot Results\n============================\n\n- \"x\"\n\tlabel: b\n\tscore: 0.2\n\n\tlabel: a\n\tscore: 0.9\n\n"
    );
}

#[test]
fn rendering_reads_the_sentence_of_the_first_entry_only() {
    let outputs = vec![vec![scored("a", 0.5, 0), scored("b", 0.25, 7)]];
    assert_eq!(
        render_report(&outputs, &["x"]),
        "ZeroShot Results\n============================\n\n- \"x\"\n\tlabel: a\n\tscore: 0.5\n\n\tlabel: b\n\tscore: 0.25\n\n"
    );
}

#[test]
fn report_answers_the_batch_in_its_order() {
    let outputs = vec![
        vec![scored("a", 0.25, 0), scored("b", 0.5, 0)],
        vec![scored("a", 0.75, 1), scored("b", 0.125, 1)],
    ];
    let report = predict_multilabel(&outputs, &["first", "second"]);
    assert_eq!(
        report,
        "ZeroShot Results\n============================\n\n\
         - \"first\"\n\tlabel: b\n\tscore: 0.5\n\n\tlabel: a\n\tscore: 0.25\n\n\
         - \"second\"\n\tlabel: a\n\tscore: 0.75\n\n\tlabel: b\n\tscore: 0.125\n\n"
    );
}

#[test]
fn score_rank_is_the_pattern_with_the_sign_turned() {
    let half = Score::from_bits(0x3FE0_0000_0000_0000, "0.5".to_string());
    assert_eq!(half.rank, 0xBFE0_0000_0000_0000);
    assert_eq!(half.digits, "0.5");
    let minus_half = Score::from_bits(0xBFE0_0000_0000_0000, "-0.5".to_string());
    assert_eq!(minus_half.rank, 0x401F_FFFF_FFFF_FFFF);
    assert_eq!(Score::from_bits(0, "0".to_string()).rank, 0x8000_0000_0000_0000);
    assert_eq!(Score::from_bits(u64::MAX, String::new()).rank, 0);
}

#[test]
fn score_ranks_order_as_the_scores_do() {
    let scores = [-2.5f64, -1.0, -0.001, 0.0, 0.0004, 0.2, 0.9, 1.0, 37.5];
    for pair in scores.windows(2) {
        let low = Score::from_bits(pair[0].to_bits(), pair[0].to_string());
        let high = Score::from_bits(pair[1].to_bits(), pair[1].to_string());
        assert!(low.rank < high.rank);
    }
}

#[test]
fn ranking_orders_negative_and_positive_scores() {
    let row = vec![scored("a", -0.5, 0), scored("b", 0.25, 0), scored("c", -0.75, 0)];
    assert_eq!(names(&rank_labels(&row)), vec!["b", "a", "c"]);
}
