//! Fenced-block extraction, path policy, extensions, and text helpers.

use mail_triage::model::Content;
use mail_triage::model::Response;
use mail_triage::model::Usage;
use mail_triage::repo::is_ignored;
use mail_triage::repo::filter_paths;
use mail_triage::repo::strip_trailing_newline;
use mail_triage::repo::FileContents;
use mail_triage::Message;

fn reply_of(text: &str) -> Response {
    Response {
        id: "id".to_string(),
        response_type: "message".to_string(),
        role: "assistant".to_string(),
        content: vec![Content {
            content_type: "text".to_string(),
            text: text.to_string(),
        }],
        model: "haiku-20240307".to_string(),
        stop_reason: "end_turn".to_string(),
        stop_sequence: None,
        usage: Usage {
            input_tokens: 10,
            output_tokens: 10,
        },
    }
}

#[test]
fn codeblock_extraction() {
    let r = reply_of("Reasoning first.\n```json\n{\"a\": 1}\n```\nDone.");
    assert_eq!(r.extract_codeblock("json"), Some("\n{\"a\": 1}\n".to_string()));
    // A block of another tag does not match.
    assert_eq!(r.extract_codeblock("python"), None);
    // The empty tag takes the first fenced block whatever its tag.
    assert_eq!(r.extract_codeblock(""), Some("json\n{\"a\": 1}\n".to_string()));
}

#[test]
fn codeblock_absence_differs_from_empty() {
    // No fence at all: no match.
    let none = reply_of("json without fences");
    assert_eq!(none.extract_codeblock("json"), None);
    // A matched but empty block: a present, empty payload.
    let empty = reply_of("x```json``` y");
    assert_eq!(empty.extract_codeblock("json"), Some("".to_string()));
}

#[test]
fn codeblock_takes_first_matching_block() {
    let r = reply_of("```python\npass\n```\nthen\n```json\n{}\n```\nand\n```json\n{\"late\": 1}\n```");
    assert_eq!(r.extract_codeblock("json"), Some("\n{}\n".to_string()));
    // Text mentioning the tag outside any fence does not count.
    let tricky = reply_of("json is what you asked.\n```json\n{\"k\": 2}\n```");
    assert_eq!(tricky.extract_codeblock("json"), Some("\n{\"k\": 2}\n".to_string()));
}

#[test]
fn unterminated_final_fence_counts() {
    let r = reply_of("words\n```json\n{\"open\": true}");
    assert_eq!(r.extract_codeblock("json"), Some("\n{\"open\": true}".to_string()));
}

#[test]
fn file_extension() {
    let f = FileContents::new("src/main.rs".to_string(), String::new());
    assert_eq!(f.extension(), "rs");
    let g = FileContents::new("archive.tar.gz".to_string(), String::new());
    assert_eq!(g.extension(), "gz");
    let none = FileContents::new("Makefile".to_string(), String::new());
    assert_eq!(none.extension(), "");
    let trailing = FileContents::new("odd.".to_string(), String::new());
    assert_eq!(trailing.extension(), "");
}

#[test]
fn denylist_policy() {
    assert!(is_ignored("go.mod"));
    assert!(is_ignored("Cargo.toml"));
    assert!(is_ignored("package-lock.json"));
    assert!(is_ignored("app/Dockerfile"));
    assert!(is_ignored(".env"));
    assert!(is_ignored("config/.env.example"));
    assert!(is_ignored(".vscode/settings.txt"));
    assert!(is_ignored("bin/tool.exe"));
    assert!(is_ignored("node_modules/lib/index.js"));
    assert!(is_ignored("assets/logo.png"));
    assert!(is_ignored("styles/site.css"));
    assert!(is_ignored("run.sh"));
    assert!(is_ignored("bundle.tar.gz"));
    assert!(is_ignored("notes.txt"));
    assert!(is_ignored("README"));

    assert!(!is_ignored("src/main.rs"));
    assert!(!is_ignored("lib/scraper.py"));
    assert!(!is_ignored("web/index.html"));
    // A gzip archive not made from a tarball is kept: only `.tar.gz` is
    // listed.
    assert!(!is_ignored("data.gz"));
}

#[test]
fn path_filter_keeps_order() {
    let paths = vec![
        "src/a.rs".to_string(),
        "go.mod".to_string(),
        "src/b.py".to_string(),
        "logo.svg".to_string(),
        "c.go".to_string(),
    ];
    let kept = filter_paths(&paths);
    assert_eq!(kept, vec!["src/a.rs".to_string(), "src/b.py".to_string(), "c.go".to_string()]);
}

#[test]
fn trailing_newline_stripped_once() {
    assert_eq!(strip_trailing_newline("a\n"), "a");
    assert_eq!(strip_trailing_newline("a\n\n"), "a\n");
    assert_eq!(strip_trailing_newline("a"), "a");
    assert_eq!(strip_trailing_newline(""), "");
}

#[test]
fn message_carries_its_parts() {
    let m = Message::new("them", "Hello there");
    assert_eq!(m.sender, "them");
    assert_eq!(m.content, "Hello there");
}

#[test]
fn prompts_embed_their_inputs() {
    let conv = vec![
        Message::new("them", "I want the job"),
        Message::new("us", "Show us something first"),
    ];
    let catalog = mail_triage::cases::default_cases();
    let prompt = mail_triage::cases::classification_prompt(&conv, &catalog);
    assert!(prompt.contains("them: I want the job"));
    assert!(prompt.contains("us: Show us something first"));
    assert!(prompt.contains("\"position\": \"candidate wants a position\""));
    assert!(prompt.contains("\"request_for_update\""));
    assert!(prompt.contains("\"next_steps_question\""));

    let task_prompt = mail_triage::answer::task_spec_prompt(&conv);
    assert!(task_prompt.contains("them: I want the job"));
    assert!(task_prompt.contains("json"));
}

#[test]
fn eval_prompt_lists_only_unscored_metrics() {
    let files = vec![FileContents::new(
        "gen.py".to_string(),
        "import math\nprint(math.pi)".to_string(),
    )];
    let metrics = mail_triage::eval::EvalMetrics::from_file_contents(&files);
    let ts = mail_triage::answer::TaskSpec {
        task: "Create a fractals generator".to_string(),
        position: "JUNIOR".to_string(),
    };
    let prompt = mail_triage::eval::eval_prompt(&ts, &metrics, &files);
    // The seeded line-count metric is not asked of the model.
    assert!(prompt.contains("[functionality, difficulty_of_language]"));
    assert!(!prompt.contains("\"n_lines\""));
    // The task is embedded with its first letter lowered, the position in
    // lower case, and the file in a fence tagged with its extension.
    assert!(prompt.contains("The assignment was to create a fractals generator."));
    assert!(prompt.contains("position of junior"));
    assert!(prompt.contains("gen.py:\n````py\nimport math\nprint(math.pi)\n````"));
    assert!(prompt.contains("\"is_suitable\": bool"));
}
