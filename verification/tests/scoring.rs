//! Ratings, the line-count score, rubric completeness, and the decision
//! threshold, on concrete values.

use mail_triage::eval::EvalMetric;
use mail_triage::eval::EvalMetrics;
use mail_triage::eval::Evaluation;
use mail_triage::model::Model;
use mail_triage::model::Content;
use mail_triage::model::Response;
use mail_triage::model::Usage;
use mail_triage::repo::FileContents;
use mail_triage::router::conclude_auto_eval;
use mail_triage::score::normalize_rating;
use mail_triage::score::Rat;
use mail_triage::score::Score;
use mail_triage::score::SCALE;
use mail_triage::TriageError;

fn repo_of_lines(n: usize) -> Vec<FileContents> {
    // One file holding exactly `n` lines, without a trailing newline.
    let mut text = "x\n".repeat(n);
    text.pop();
    vec![FileContents::new("main.rs".to_string(), text)]
}

#[test]
fn rating_normalization() {
    assert_eq!(normalize_rating("7"), Some(Score { units: 7 * SCALE }));
    assert_eq!(normalize_rating("7/10"), Some(Score { units: 7 * SCALE }));
    assert_eq!(normalize_rating("7/5"), None);
    assert_eq!(normalize_rating("seven"), None);
}

#[test]
fn rating_normalization_shapes() {
    assert_eq!(normalize_rating("7.5"), Some(Score { units: 337_500_000 }));
    assert_eq!(normalize_rating("-3"), Some(Score { units: -3 * SCALE }));
    assert_eq!(normalize_rating(" 8 / 10 "), Some(Score { units: 8 * SCALE }));
    assert_eq!(normalize_rating("8/10.0"), Some(Score { units: 8 * SCALE }));
    assert_eq!(normalize_rating("8/9"), None);
    assert_eq!(normalize_rating("8/10/10"), None);
    assert_eq!(normalize_rating(""), None);
    assert_eq!(normalize_rating("."), None);
    assert_eq!(normalize_rating("2.25"), Some(Score { units: 101_250_000 }));
    assert_eq!(normalize_rating("7."), Some(Score { units: 7 * SCALE }));
    assert_eq!(normalize_rating(".5"), Some(Score { units: 22_500_000 }));
    assert_eq!(normalize_rating("+7"), Some(Score { units: 7 * SCALE }));
    assert_eq!(normalize_rating("7 "), None);
}

#[test]
fn n_lines_score_points() {
    // 100 lines earn 0.0, 550 earn 10.0, and 1000 stay clamped at 10.0.
    let m100 = EvalMetrics::from_file_contents(&repo_of_lines(100));
    assert_eq!(m100.0[2].key, "n_lines");
    assert_eq!(m100.0[2].value, Some(Score { units: 0 }));

    let m550 = EvalMetrics::from_file_contents(&repo_of_lines(550));
    assert_eq!(m550.0[2].value, Some(Score { units: 10 * SCALE }));

    let m1000 = EvalMetrics::from_file_contents(&repo_of_lines(1000));
    assert_eq!(m1000.0[2].value, Some(Score { units: 10 * SCALE }));

    // In between the score is linear: 145 lines earn one point.
    let m145 = EvalMetrics::from_file_contents(&repo_of_lines(145));
    assert_eq!(m145.0[2].value, Some(Score { units: SCALE }));
}

#[test]
fn conditional_metrics_threshold() {
    // At exactly 250 lines the conditional metrics are absent; one line
    // more brings them in, in order.
    let at = EvalMetrics::from_file_contents(&repo_of_lines(250));
    assert_eq!(at.0.len(), 3);
    assert!(at.0.iter().all(|m| m.key != "reliability" && m.key != "maintainability"));

    let above = EvalMetrics::from_file_contents(&repo_of_lines(251));
    assert_eq!(above.0.len(), 5);
    assert_eq!(above.0[0].key, "functionality");
    assert_eq!(above.0[1].key, "difficulty_of_language");
    assert_eq!(above.0[2].key, "n_lines");
    assert_eq!(above.0[3].key, "reliability");
    assert_eq!(above.0[4].key, "maintainability");
}

#[test]
fn incomplete_rubric_fails() {
    // One metric left unscored after the reply is applied is a hard
    // failure, never a mean over a subset.
    let metrics = EvalMetrics::from_file_contents(&repo_of_lines(10));
    let reply = "```json\n{\"functionality\": 8, \"is_suitable\": true}\n```";
    match mail_triage::eval::finish_evaluation(&metrics, reply) {
        Err(TriageError::IncompleteRubric(_)) => {}
        other => panic!("expected the incomplete-rubric error, got {:?}", other),
    }
}

#[test]
fn empty_rubric_fails() {
    let metrics = EvalMetrics(vec![]);
    let reply = "```json\n{\"is_suitable\": true}\n```";
    match mail_triage::eval::finish_evaluation(&metrics, reply) {
        Err(TriageError::IncompleteRubric(_)) => {}
        other => panic!("expected the incomplete-rubric error, got {:?}", other),
    }
}

#[test]
fn unknown_metric_key_fails() {
    let metrics = EvalMetrics::from_file_contents(&repo_of_lines(10));
    let reply = "```json\n{\"bogus\": 5, \"is_suitable\": true}\n```";
    match mail_triage::eval::finish_evaluation(&metrics, reply) {
        Err(TriageError::UnknownMetricKey(k)) => assert_eq!(k, "bogus"),
        other => panic!("expected the unknown-metric error, got {:?}", other),
    }
}

#[test]
fn non_boolean_suitability_fails() {
    let metrics = EvalMetrics::from_file_contents(&repo_of_lines(10));
    let reply = "```json\n{\"functionality\": 8, \"difficulty_of_language\": 3, \"is_suitable\": \"yes\"}\n```";
    match mail_triage::eval::finish_evaluation(&metrics, reply) {
        Err(TriageError::MalformedModelOutput(_)) => {}
        other => panic!("expected the malformed-output error, got {:?}", other),
    }
}

#[test]
fn missing_suitability_fails() {
    let metrics = EvalMetrics::from_file_contents(&repo_of_lines(10));
    let reply = "```json\n{\"functionality\": 8, \"difficulty_of_language\": 3}\n```";
    match mail_triage::eval::finish_evaluation(&metrics, reply) {
        Err(TriageError::MalformedModelOutput(_)) => {}
        other => panic!("expected the malformed-output error, got {:?}", other),
    }
}

#[test]
fn reply_without_block_fails() {
    let metrics = EvalMetrics::from_file_contents(&repo_of_lines(10));
    match mail_triage::eval::finish_evaluation(&metrics, "all good, 8 out of 10") {
        Err(TriageError::MalformedModelOutput(_)) => {}
        other => panic!("expected the malformed-output error, got {:?}", other),
    }
}

#[test]
fn reply_with_non_object_json_fails() {
    let metrics = EvalMetrics::from_file_contents(&repo_of_lines(10));
    match mail_triage::eval::finish_evaluation(&metrics, "```json\n[1, 2, 3]\n```") {
        Err(TriageError::MalformedModelOutput(_)) => {}
        other => panic!("expected the malformed-output error, got {:?}", other),
    }
}

#[test]
fn string_ratings_are_normalized() {
    let metrics = EvalMetrics::from_file_contents(&repo_of_lines(10));
    let reply = "```json\n{\"functionality\": \"7/10\", \"difficulty_of_language\": \"3\", \"is_suitable\": false}\n```";
    let ev = mail_triage::eval::finish_evaluation(&metrics, reply).unwrap();
    // Mean over {7, 3, 0.0} is 10/3.
    assert_eq!(ev.mean_score.num * 3, 10 * ev.mean_score.den);
    assert!(!ev.decision);
    assert_eq!(ev.raw_response, reply);

    let bad = "```json\n{\"functionality\": \"7/5\", \"difficulty_of_language\": 3, \"is_suitable\": true}\n```";
    match mail_triage::eval::finish_evaluation(&metrics, bad) {
        Err(TriageError::MalformedModelOutput(_)) => {}
        other => panic!("expected the malformed-output error, got {:?}", other),
    }
}

#[test]
fn metric_update_by_key() {
    let mut metrics = EvalMetrics(vec![
        EvalMetric::new("a", "first", None),
        EvalMetric::new("b", "second", None),
    ]);
    metrics.update("b", Score { units: 2 * SCALE }).unwrap();
    assert_eq!(metrics.0[0].value, None);
    assert_eq!(metrics.0[1].value, Some(Score { units: 2 * SCALE }));
    match metrics.update("c", Score { units: 0 }) {
        Err(TriageError::UnknownMetricKey(k)) => assert_eq!(k, "c"),
        other => panic!("expected the unknown-metric error, got {:?}", other),
    }
}

#[test]
fn decision_threshold_is_conjunctive() {
    let mean_exactly_5 = Rat {
        num: 5 * 3 * (SCALE as i128),
        den: 3 * (SCALE as i128),
    };
    let boundary = Evaluation {
        mean_score: mean_exactly_5,
        decision: true,
        raw_response: String::new(),
    };
    // A suitable verdict with a mean of exactly 5.0 is still BAD.
    assert_eq!(conclude_auto_eval(&boundary).situation, "BAD");

    let high_mean = Rat {
        num: 9 * (SCALE as i128),
        den: SCALE as i128,
    };
    let unsuitable = Evaluation {
        mean_score: high_mean,
        decision: false,
        raw_response: String::new(),
    };
    // A high mean without a suitable verdict is BAD too.
    assert_eq!(conclude_auto_eval(&unsuitable).situation, "BAD");

    let just_above = Rat {
        num: 5 * 3 * (SCALE as i128) + 1,
        den: 3 * (SCALE as i128),
    };
    let good = Evaluation {
        mean_score: just_above,
        decision: true,
        raw_response: String::new(),
    };
    let case = conclude_auto_eval(&good);
    assert_eq!(case.situation, "GOOD");
    assert_eq!(case.key, "auto_eval");
    assert!(case.instruction.contains("invite them for an interview"));
}

#[test]
fn model_names_and_costs() {
    assert_eq!(Model::Fast.to_str(), "haiku-20240307");
    assert_eq!(Model::Sonnet.to_str(), "sonnet-20240229");
    assert_eq!(Model::from_str("opus-20240229"), Model::Slow);
    assert_eq!(Model::from_str("sonnet-20240229"), Model::Medium);
    let c = Model::Medium.cost();
    assert_eq!(c.million_input_tokens, 300);
    assert_eq!(c.million_output_tokens, 1500);
}

#[test]
fn response_text_and_cost() {
    let r = Response {
        id: "id".to_string(),
        response_type: "message".to_string(),
        role: "assistant".to_string(),
        content: vec![Content {
            content_type: "text".to_string(),
            text: "hello".to_string(),
        }],
        model: "sonnet-20240229".to_string(),
        stop_reason: "end_turn".to_string(),
        stop_sequence: None,
        usage: Usage {
            input_tokens: 1_000_000,
            output_tokens: 0,
        },
    };
    assert_eq!(r.text(), "hello");
    // A million input tokens on the middle tier cost 300 cents.
    let cents = r.cost_cents();
    assert_eq!(cents.num, 300 * cents.den);
}
