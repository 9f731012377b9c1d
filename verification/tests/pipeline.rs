//! End-to-end drives of the triage pipeline, with scripted model replies
//! standing in for the transport.

use mail_triage::answer;
use mail_triage::cases;
use mail_triage::eval::EvalMetrics;
use mail_triage::mail::Message;
use mail_triage::repo::FileContents;
use mail_triage::router;
use mail_triage::router::RouterAction;

/// Drives one conversation through the router, answering the model's part
/// with the scripted replies.
fn drive(
    slice: &Vec<Message>,
    classify_reply: &str,
    files: Vec<FileContents>,
    eval_reply: &str,
) -> Option<cases::Case> {
    match router::determine_case(slice).unwrap() {
        RouterAction::Classify { prompt } => {
            assert!(!prompt.is_empty());
            let catalog = cases::default_cases();
            cases::determine_case(classify_reply, &catalog).unwrap()
        }
        RouterAction::AutoEval {
            locator,
            task_prompt,
        } => {
            assert!(locator.contains("https://github.com/"));
            assert!(!task_prompt.is_empty());
            let task_reply = "```json\n{\"task\": \"Create a parser of exchange documentations\", \"position\": \"Quant\"}\n```";
            let ts = answer::extract_task_spec(task_reply).unwrap();
            let metrics = EvalMetrics::from_file_contents(&files);
            let _prompt = mail_triage::eval::eval_prompt(&ts, &metrics, &files);
            let evaluation = mail_triage::eval::finish_evaluation(&metrics, eval_reply).unwrap();
            Some(router::conclude_auto_eval(&evaluation))
        }
    }
}

fn small_repo() -> Vec<FileContents> {
    vec![FileContents::new(
        "scraper.py".to_string(),
        "import sys\nprint(sys.argv)".to_string(),
    )]
}

#[test]
fn cases_1() {
    let interaction = vec![
        Message {
            content: "I am a trader, with rust and python knowledge. Would love to work with you in any way shape or form.".to_string(),
            sender: "them".to_string(),
        },
        Message {
            content: "I'm assuming you want a quant position. First show us what you got: create a parser of exchange documentations, to detect unannounced changes. Target time: 4 hours. Upload to github and send us the link.".to_string(),
            sender: "us".to_string(),
        },
        Message {
            content: "Get me in!\n\nhttps://github.com/Valera6/doc_scraper.git".to_string(),
            sender: "them".to_string(),
        },
        Message {
            content: "Great job, you're through".to_string(),
            sender: "us".to_string(),
        },
        Message {
            content: "Thanks".to_string(),
            sender: "them".to_string(),
        },
    ];

    let correct_keys: Vec<&'static str> = vec!["position", "auto_eval", ""];

    for i in (0..interaction.len()).step_by(2) {
        let slice: Vec<Message> = interaction[..=i].to_vec();
        let classify_reply = if i == 0 {
            "```json\n{\"case\": \"position\"}\n```"
        } else {
            "```json\n{\"case\": null}\n```"
        };
        let eval_reply =
            "```json\n{\"functionality\": 8, \"difficulty_of_language\": 3, \"is_suitable\": true}\n```";
        let case = drive(&slice, classify_reply, small_repo(), eval_reply);
        println!("Got: {:?}\nCorrect key: {}", case, correct_keys[i / 2]);
        match case {
            Some(c) => assert!(correct_keys[i / 2] == c.key),
            None => assert!(correct_keys[i / 2] == ""),
        }
    }
}

#[test]
fn eval_1() {
    let interaction = vec![
        Message {
            content: "What do I need to do to get hired as a junior?".to_string(),
            sender: "them".to_string(),
        },
        Message {
            content: "Create a fractals generator. Upload to github and send us the link.".to_string(),
            sender: "us".to_string(),
        },
        Message {
            content: "I really really tried. Is this good? https://github.com/lunarcon/pyfractals".to_string(),
            sender: "them".to_string(),
        },
    ];

    let eval_reply =
        "```json\n{\"functionality\": 4, \"difficulty_of_language\": 2, \"is_suitable\": true}\n```";
    let case = drive(
        &interaction,
        "```json\n{\"case\": null}\n```",
        small_repo(),
        eval_reply,
    )
    .expect("Has to be Some, as the last message has a github link");
    assert_eq!(case.key, "auto_eval");
    assert_eq!(case.situation, "BAD");
}

#[test]
fn end_to_end_scenario() {
    // A candidate merely asking for a position resolves to the catalog's
    // `position` case.
    let asking = vec![Message::new(
        "them",
        "Hello, do you have any openings for a junior developer?",
    )];
    let case = drive(
        &asking,
        "```json\n{\"case\": \"position\"}\n```",
        small_repo(),
        "",
    )
    .unwrap();
    assert_eq!(case.key, "position");

    // A submission of 80 lines, scored functionality 8 and language
    // difficulty 3 and judged suitable, still concludes BAD: the mean over
    // {8, 3, 0.0} is 11/3, which does not exceed 5.
    let submitting = vec![
        Message::new("us", "Create a fractals generator."),
        Message::new("them", "Here it is: https://github.com/x/y.git"),
    ];
    let repo = vec![FileContents::new(
        "gen.py".to_string(),
        "x = 0\n".repeat(80).trim_end().to_string(),
    )];
    match router::determine_case(&submitting).unwrap() {
        RouterAction::AutoEval { locator, .. } => {
            assert_eq!(locator, "https://github.com/x/y.git");
            let ts = answer::extract_task_spec(
                "```json\n{\"task\": \"Create a fractals generator\", \"position\": \"Junior\"}\n```",
            )
            .unwrap();
            let metrics = EvalMetrics::from_file_contents(&repo);
            let _prompt = mail_triage::eval::eval_prompt(&ts, &metrics, &repo);
            let ev = mail_triage::eval::finish_evaluation(
                &metrics,
                "```json\n{\"functionality\": 8, \"difficulty_of_language\": 3, \"is_suitable\": true}\n```",
            )
            .unwrap();
            assert!(ev.decision);
            // The mean is exactly 11/3.
            assert_eq!(ev.mean_score.num * 3, 11 * ev.mean_score.den);
            let case = router::conclude_auto_eval(&ev);
            assert_eq!(case.key, "auto_eval");
            assert_eq!(case.situation, "BAD");
        }
        RouterAction::Classify { .. } => panic!("a submission link must start an evaluation"),
    }
}

#[test]
fn empty_conversation_is_refused() {
    let empty: Vec<Message> = vec![];
    match router::determine_case(&empty) {
        Err(mail_triage::TriageError::EmptyConversation) => {}
        other => panic!("expected the empty-conversation error, got {:?}", other),
    }
}

#[test]
fn no_link_never_evaluates() {
    // Mentions of repositories in earlier messages do not matter: only the
    // latest message decides, and without a link token the router always
    // classifies.
    let conv = vec![
        Message::new("them", "see https://github.com/a/b please"),
        Message::new("us", "we will look at it"),
    ];
    match router::determine_case(&conv).unwrap() {
        RouterAction::Classify { .. } => {}
        RouterAction::AutoEval { .. } => panic!("no link in the last message"),
    }
}

#[test]
fn locator_is_the_first_link_token() {
    let conv = vec![Message::new(
        "them",
        "Both https://github.com/a/b and https://github.com/c/d work",
    )];
    match router::determine_case(&conv).unwrap() {
        RouterAction::AutoEval { locator, .. } => {
            assert_eq!(locator, "https://github.com/a/b");
        }
        RouterAction::Classify { .. } => panic!("the last message has a github link"),
    }
}

#[test]
fn unknown_case_key_is_refused() {
    let catalog = cases::default_cases();
    match cases::determine_case("```json\n{\"case\": \"promotion\"}\n```", &catalog) {
        Err(mail_triage::TriageError::UnknownCaseKey(k)) => assert_eq!(k, "promotion"),
        other => panic!("expected the unknown-case error, got {:?}", other),
    }
}

#[test]
fn classification_reply_without_block_is_refused() {
    let catalog = cases::default_cases();
    match cases::determine_case("I think it is the position case.", &catalog) {
        Err(mail_triage::TriageError::MalformedModelOutput(_)) => {}
        other => panic!("expected the malformed-output error, got {:?}", other),
    }
}

#[test]
fn classification_resolves_by_key() {
    let catalog = cases::default_cases();
    let case = cases::determine_case("```json\n{\"case\": \"request_for_update\"}\n```", &catalog)
        .unwrap()
        .unwrap();
    assert_eq!(case.key, "request_for_update");
    assert_eq!(case.instruction, "tell him to wait");
    // A reply without the field, like one with null, matches no case.
    assert!(cases::determine_case("```json\n{}\n```", &catalog)
        .unwrap()
        .is_none());
}

#[test]
fn answer_prompt_follows_the_case() {
    let conv = vec![Message::new("them", "any update?")];
    let catalog = cases::default_cases();
    let case = catalog.by_key("request_for_update").unwrap().clone();
    let prompt = router::answer_if_possible(&conv, Some(case)).unwrap();
    assert!(prompt.contains("Tell him to wait."));
    assert!(prompt.contains("them: any update?"));
    assert!(router::answer_if_possible(&conv, None).is_none());
}

#[test]
fn composed_reply_is_the_first_fenced_block() {
    let reply = "Sure.\n```Dear candidate,\nplease wait.\nbest,\nValera```\nDone.";
    let mail = answer::compose_reply(reply).unwrap();
    assert_eq!(mail, "Dear candidate,\nplease wait.\nbest,\nValera");
    assert!(answer::compose_reply("no block at all").is_err());
}

#[test]
fn task_spec_extraction_reads_both_fields() {
    let ts = answer::extract_task_spec(
        "Sure!\n```json\n{\"task\": \"Build a parser\", \"position\": \"Quant\"}\n```",
    )
    .unwrap();
    assert_eq!(ts.task, "Build a parser");
    assert_eq!(ts.position, "Quant");
    // A missing or mistyped field is a hard failure.
    assert!(answer::extract_task_spec("```json\n{\"task\": \"Build a parser\"}\n```").is_err());
    assert!(
        answer::extract_task_spec("```json\n{\"task\": 3, \"position\": \"Quant\"}\n```").is_err()
    );
}
