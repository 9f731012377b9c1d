//! The case router: one decision per conversation.
//!
//! The router never performs outside work itself. It decides, from the
//! conversation alone, whether the cycle is an automated evaluation (the
//! latest message carries a repository link) or a classification, and hands
//! the caller what that path needs next. The caller performs the transport
//! and feeds each reply back into the verified steps.

use vstd::prelude::*;
use crate::answer::compose_prompt_spec;
use crate::answer::task_spec_prompt_spec;
use crate::cases::Case;
use crate::cases::classification_prompt_spec;
use crate::cases::default_catalog_pairs;
use crate::error::TriageError;
use crate::eval::Evaluation;
use crate::mail::Message;
use crate::text::first_token_containing;

verus! {

/// What the router asks the caller to do next.
#[derive(Debug)]
pub enum RouterAction {
    /// Evaluate the submission behind `locator`: ask the model for the
    /// task specification with `task_prompt`, then extract, score and
    /// conclude.
    AutoEval { locator: String, task_prompt: String },
    /// Ask the model to classify the conversation with `prompt`, then
    /// resolve the reply against the catalog.
    Classify { prompt: String },
}

/// The marker whose presence in the latest message makes a conversation a
/// submission.
pub open spec fn repo_link_marker() -> Seq<char> {
    "https://github.com/"@
}

/// The locator of the submission: the first whitespace-delimited token of
/// the latest message that holds the marker, taken verbatim.
pub open spec fn link_locator(ms: Seq<Message>) -> Option<Seq<char>> {
    first_token_containing(ms.last().content@, repo_link_marker())
}

/// True when the latest message carries a repository-link token.
pub open spec fn last_has_link(ms: Seq<Message>) -> bool {
    ms.len() > 0 && link_locator(ms) is Some
}

/// The router's link test is the plain substring test: the latest message
/// holds a repository-link token exactly when its text holds the marker
/// anywhere, since the marker spans no whitespace.
pub proof fn lemma_link_iff_marker(ms: Seq<Message>)
    requires
        ms.len() > 0,
    ensures
        last_has_link(ms) <==> crate::text::contains_seq(ms.last().content@, repo_link_marker()),
{
    reveal_strlit("https://github.com/");
    assert(repo_link_marker().len() == 19);
    assert forall|i: int|
        0 <= i < repo_link_marker().len() implies !crate::text::is_ws(
        #[trigger] repo_link_marker()[i],
    ) by {}
    crate::text::lemma_token_iff_contains(ms.last().content@, repo_link_marker());
}

/// Routes one conversation. An empty conversation is refused outright.
/// Exactly when the latest message carries a repository link, the router
/// starts an automated evaluation and never a classification; otherwise it
/// starts a classification and never an evaluation.
pub fn determine_case(interaction: &Vec<Message>) -> (r: Result<RouterAction, TriageError>)
    ensures
        interaction@.len() == 0 ==> (r matches Err(e) && e is EmptyConversation),
        interaction@.len() > 0 ==> r is Ok,
        r matches Ok(a) ==> ((a is AutoEval) <==> last_has_link(interaction@)),
        r matches Ok(RouterAction::AutoEval { locator, task_prompt }) ==> Some(locator@)
            == link_locator(interaction@) && task_prompt@ == task_spec_prompt_spec(interaction@),
        r matches Ok(RouterAction::Classify { prompt }) ==> prompt@
            == classification_prompt_spec(interaction@, default_catalog_pairs()),
{
    if interaction.len() == 0 {
        return Err(TriageError::EmptyConversation);
    }
    let last = &interaction[interaction.len() - 1];
    let content = crate::text::chars_of(last.content.as_str());
    let marker = crate::text::chars_of("https://github.com/");
    match crate::text::first_token_with(&content, &marker) {
        Some(token) => {
            let locator = crate::text::string_of(token);
            let task_prompt = crate::answer::task_spec_prompt(interaction);
            Ok(RouterAction::AutoEval { locator, task_prompt })
        },
        None => {
            let catalog = crate::cases::default_cases();
            let prompt = crate::cases::classification_prompt(interaction, &catalog);
            Ok(RouterAction::Classify { prompt })
        },
    }
}

/// The case an automated evaluation concludes to. Its key is always
/// `auto_eval`; its situation is `GOOD` exactly when the model judged the
/// submission suitable and the mean score exceeds five, and `BAD` in every
/// other combination; the instruction carries the matching next step.
pub fn conclude_auto_eval(evaluation: &Evaluation) -> (r: Case)
    requires
        evaluation.mean_score.wf(),
    ensures
        r.key@ == "auto_eval"@,
        (r.situation@ == "GOOD"@) <==> (evaluation.decision
            && evaluation.mean_score.spec_gt_int(5)),
        (evaluation.decision && evaluation.mean_score.spec_gt_int(5)) ==> r.situation@
            == "GOOD"@ && r.instruction@
            == "invite them for an interview; link is: https://calendly.com/valera6/interview"@,
        !(evaluation.decision && evaluation.mean_score.spec_gt_int(5)) ==> r.situation@
            == "BAD"@ && r.instruction@ == "tell them they are sadly not suitable for the position"@,
{
    proof {
        reveal_strlit("GOOD");
        reveal_strlit("BAD");
        assert("BAD"@.len() == 3 && "GOOD"@.len() == 4);
        assert("BAD"@ != "GOOD"@);
    }
    if evaluation.decision && evaluation.mean_score.gt_int(5) {
        Case::new(
            "auto_eval",
            "GOOD",
            "invite them for an interview; link is: https://calendly.com/valera6/interview",
        )
    } else {
        Case::new("auto_eval", "BAD", "tell them they are sadly not suitable for the position")
    }
}

/// Drafts the reply query when a case matched: the composition prompt for
/// that case, and nothing when no case did.
pub fn answer_if_possible(interaction: &Vec<Message>, case: Option<Case>) -> (r: Option<String>)
    ensures
        match case {
            Some(c) => r matches Some(s) && s@ == compose_prompt_spec(interaction@, c),
            None => r is None,
        },
{
    match case {
        Some(c) => Some(crate::answer::compose(interaction, &c)),
        None => None,
    }
}

} // verus!
