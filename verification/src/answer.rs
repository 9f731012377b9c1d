//! The task specification and the reply composer.
//!
//! Both sides of each exchange live here: the prompt the model is sent,
//! and the verified reading of what it answers. Carrying the prompt to the
//! model is the caller's work.

use vstd::prelude::*;
use crate::cases::Case;
use crate::error::TriageError;
use crate::json::JsonV;
use crate::json::json_object_of;
use crate::json::spec_lookup;
use crate::mail::Message;
use crate::mail::conversation_text;
use crate::text::codeblock_spec;
use crate::text::upper_first;

verus! {

/// The task a candidate was given, and the position it was given for,
/// both extracted from the conversation.
#[derive(Debug, Clone)]
pub struct TaskSpec {
    pub task: String,
    pub position: String,
}

/// The prompt that asks the model to extract the task and the position
/// from the conversation.
pub open spec fn task_spec_prompt_spec(ms: Seq<Message>) -> Seq<char> {
    "Parse the following email conversation, and extract exact (task, position) that were given to the candidate. ```"@
        + conversation_text(ms)
        + "```\n\nReturn extracted task and position as a json codeblock. Like this: ```json\n{\n\t\"task\": String,\n\t\"position\": String\n}\n```"@
}

/// Renders the task-extraction prompt.
pub fn task_spec_prompt(interaction: &Vec<Message>) -> (r: String)
    ensures
        r@ == task_spec_prompt_spec(interaction@),
{
    let mut out: Vec<char> = Vec::new();
    crate::text::append_str(
        &mut out,
        "Parse the following email conversation, and extract exact (task, position) that were given to the candidate. ```",
    );
    let conv = crate::mail::render_conversation(interaction);
    crate::text::append_chars(&mut out, &conv);
    crate::text::append_str(
        &mut out,
        "```\n\nReturn extracted task and position as a json codeblock. Like this: ```json\n{\n\t\"task\": String,\n\t\"position\": String\n}\n```",
    );
    crate::text::string_of(out)
}

/// What a task-extraction reply yields: its `json` block must be an object
/// whose `task` and `position` fields are strings.
pub open spec fn task_spec_of(reply: Seq<char>) -> Option<(Seq<char>, Seq<char>)> {
    match codeblock_spec(reply, "json"@) {
        None => None,
        Some(block) => match json_object_of(block) {
            None => None,
            Some(obj) => match (spec_lookup(obj, "task"@), spec_lookup(obj, "position"@)) {
                (Some(JsonV::Str(t)), Some(JsonV::Str(p))) => Some((t, p)),
                _ => None,
            },
        },
    }
}

/// Reads the task and the position out of a model reply.
pub fn extract_task_spec(reply: &str) -> (r: Result<TaskSpec, TriageError>)
    ensures
        match task_spec_of(reply@) {
            Some(tp) => r matches Ok(ts) && ts.task@ == tp.0 && ts.position@ == tp.1,
            None => r matches Err(e) && e is MalformedModelOutput,
        },
{
    let tv = crate::text::chars_of(reply);
    let tag = crate::text::chars_of("json");
    let block = match crate::text::extract_block(&tv, &tag) {
        Some(b) => b,
        None => {
            return Err(TriageError::MalformedModelOutput(bad_reply_msg(reply)));
        },
    };
    let block_str = crate::text::string_of(block);
    let pairs = match crate::json::parse_json_object(block_str.as_str()) {
        Ok(p) => p,
        Err(_) => {
            return Err(TriageError::MalformedModelOutput(bad_reply_msg(reply)));
        },
    };
    proof {
        assert(crate::json::pairs_view(pairs@) =~= json_object_of(block_str@)->Some_0);
    }
    let task = match crate::json::lookup(&pairs, "task") {
        Some(crate::json::JsonScalar::Str(t)) => t.clone(),
        _ => {
            return Err(TriageError::MalformedModelOutput(bad_reply_msg(reply)));
        },
    };
    let position = match crate::json::lookup(&pairs, "position") {
        Some(crate::json::JsonScalar::Str(p)) => p.clone(),
        _ => {
            return Err(TriageError::MalformedModelOutput(bad_reply_msg(reply)));
        },
    };
    Ok(TaskSpec { task, position })
}

fn bad_reply_msg(reply: &str) -> String {
    let mut m = String::new();
    m.append("the reply did not carry the requested json payload:\n");
    m.append(reply);
    m
}

/// The prompt that asks the model to draft a reply mail, following the
/// case's instruction with its first letter raised.
pub open spec fn compose_prompt_spec(ms: Seq<Message>, c: Case) -> Seq<char> {
    "Write a response to the the email our company just received. For reference, the entire conversation up to this point:  ```"@
        + conversation_text(ms) + "```\n\n"@ + upper_first(c.instruction@)
        + ".\nReturn response inside triple bacticks, like ```{text}```. Sign with:\n`best,\nValera`\nDo not add a header.\n"@
}

/// Renders the reply-drafting prompt for a matched case.
pub fn compose(interaction: &Vec<Message>, case: &Case) -> (r: String)
    ensures
        r@ == compose_prompt_spec(interaction@, *case),
{
    let mut out: Vec<char> = Vec::new();
    crate::text::append_str(
        &mut out,
        "Write a response to the the email our company just received. For reference, the entire conversation up to this point:  ```",
    );
    let conv = crate::mail::render_conversation(interaction);
    crate::text::append_chars(&mut out, &conv);
    crate::text::append_str(&mut out, "```\n\n");
    let iv = crate::text::chars_of(case.instruction.as_str());
    let iu = crate::text::upper_first_chars(&iv);
    crate::text::append_chars(&mut out, &iu);
    crate::text::append_str(
        &mut out,
        ".\nReturn response inside triple bacticks, like ```{text}```. Sign with:\n`best,\nValera`\nDo not add a header.\n",
    );
    crate::text::string_of(out)
}

/// Reads the drafted mail text out of a model reply: the first fenced
/// block, whatever its tag.
pub fn compose_reply(reply: &str) -> (r: Result<String, TriageError>)
    ensures
        match codeblock_spec(reply@, Seq::<char>::empty()) {
            Some(b) => r matches Ok(s) && s@ == b,
            None => r matches Err(e) && e is MalformedModelOutput,
        },
{
    let tv = crate::text::chars_of(reply);
    let tag: Vec<char> = Vec::new();
    match crate::text::extract_block(&tv, &tag) {
        Some(b) => Ok(crate::text::string_of(b)),
        None => Err(TriageError::MalformedModelOutput(bad_reply_msg(reply))),
    }
}

} // verus!
