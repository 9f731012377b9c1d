//! The case catalog and the classification of a conversation.
//!
//! A case is a named, pre-instructed response pattern. The catalog is
//! fixed; the model is asked which case, if any, the last message of a
//! conversation falls under, and its answer is resolved against the
//! catalog by key, failing loudly on a key the catalog does not hold.

use vstd::prelude::*;
use crate::error::TriageError;
use crate::json::JsonV;
use crate::json::json_object_of;
use crate::json::spec_lookup;
use crate::mail::Message;
use crate::mail::conversation_text;
use crate::text::codeblock_spec;
use crate::text::join_sep;

verus! {

/// A named response pattern: a key, a short label for the situation, and
/// the directive a reply should follow.
#[derive(Debug)]
pub struct Case {
    pub key: String,
    pub situation: String,
    pub instruction: String,
}

impl Case {
    /// Builds a case from its parts.
    pub fn new(key: &str, situation: &str, instruction: &str) -> (r: Self)
        ensures
            r.key@ == key@,
            r.situation@ == situation@,
            r.instruction@ == instruction@,
    {
        Self {
            key: key.to_owned(),
            situation: situation.to_owned(),
            instruction: instruction.to_owned(),
        }
    }
}

impl Clone for Case {
    /// Copies the case, field for field.
    fn clone(&self) -> (r: Self)
        ensures
            r == *self,
    {
        Case {
            key: self.key.clone(),
            situation: self.situation.clone(),
            instruction: self.instruction.clone(),
        }
    }
}

/// The catalog: an ordered set of cases with unique keys.
#[derive(Debug)]
pub struct Cases(pub Vec<Case>);

/// Index of the first case keyed `key`, if any.
pub open spec fn find_case(cs: Seq<Case>, key: Seq<char>) -> Option<int>
    decreases cs.len(),
{
    if cs.len() == 0 {
        None
    } else if cs[0].key@ == key {
        Some(0)
    } else {
        match find_case(cs.drop_first(), key) {
            Some(i) => Some(1 + i),
            None => None,
        }
    }
}

pub proof fn lemma_find_case_bounds(cs: Seq<Case>, key: Seq<char>)
    ensures
        find_case(cs, key) matches Some(i) ==> 0 <= i < cs.len() && cs[i].key@ == key,
    decreases cs.len(),
{
    if cs.len() > 0 && cs[0].key@ != key {
        lemma_find_case_bounds(cs.drop_first(), key);
    }
}

proof fn lemma_find_case_at(cs: Seq<Case>, key: Seq<char>, i: int)
    requires
        0 <= i < cs.len(),
        cs[i].key@ == key,
        forall|j: int| 0 <= j < i ==> (#[trigger] cs[j].key)@ != key,
    ensures
        find_case(cs, key) == Some(i),
    decreases i,
{
    if i > 0 {
        lemma_find_case_at(cs.drop_first(), key, i - 1);
    }
}

proof fn lemma_find_case_none(cs: Seq<Case>, key: Seq<char>)
    requires
        forall|j: int| 0 <= j < cs.len() ==> (#[trigger] cs[j].key)@ != key,
    ensures
        find_case(cs, key) is None,
    decreases cs.len(),
{
    if cs.len() > 0 {
        lemma_find_case_none(cs.drop_first(), key);
    }
}

impl Cases {
    /// The first case keyed `key`, if the catalog holds one.
    pub fn by_key<'a>(&'a self, key: &str) -> (r: Option<&'a Case>)
        ensures
            match r {
                Some(c) => find_case(self.0@, key@) matches Some(i) && *c == self.0@[i],
                None => find_case(self.0@, key@) is None,
            },
    {
        let needle = crate::text::chars_of(key);
        let n = self.0.len();
        let mut i: usize = 0;
        while i < n
            invariant
                n == self.0@.len(),
                i <= n,
                needle@ == key@,
                forall|j: int| 0 <= j < i ==> (#[trigger] self.0@[j].key)@ != key@,
            decreases n - i,
        {
            if crate::text::str_eq_chars(self.0[i].key.as_str(), &needle) {
                proof {
                    lemma_find_case_at(self.0@, key@, i as int);
                }
                return Some(&self.0[i]);
            }
            i = i + 1;
        }
        proof {
            lemma_find_case_none(self.0@, key@);
        }
        None
    }
}

/// The key and situation of each case, in catalog order: all the
/// classification prompt shows of the catalog.
pub open spec fn catalog_pairs(cs: Seq<Case>) -> Seq<(Seq<char>, Seq<char>)> {
    cs.map(|_i: int, c: Case| (c.key@, c.situation@))
}

/// The catalog of the triage pipeline.
pub open spec fn default_catalog_pairs() -> Seq<(Seq<char>, Seq<char>)> {
    seq![
        ("position"@, "candidate wants a position"@),
        ("request_for_update"@, "candidate asking about result of interview / take-home submission"@),
        ("next_steps_question"@, "candidate asking about next steps"@),
    ]
}

/// Builds the catalog of the triage pipeline: the three cases an incoming
/// mail can fall under.
pub fn default_cases() -> (r: Cases)
    ensures
        r.0@.len() == 3,
        catalog_pairs(r.0@) == default_catalog_pairs(),
        r.0@[0].key@ == "position"@,
        r.0@[0].instruction@ == "Tell him he can't have it"@,
        r.0@[1].key@ == "request_for_update"@,
        r.0@[1].instruction@ == "tell him to wait"@,
        r.0@[2].key@ == "next_steps_question"@,
        r.0@[2].instruction@ == "tell him to wait"@,
{
    let mut cs: Vec<Case> = Vec::new();
    cs.push(Case::new("position", "candidate wants a position", "Tell him he can't have it"));
    cs.push(
        Case::new(
            "request_for_update",
            "candidate asking about result of interview / take-home submission",
            "tell him to wait",
        ),
    );
    cs.push(Case::new("next_steps_question", "candidate asking about next steps", "tell him to wait"));
    proof {
        assert(catalog_pairs(cs@) =~= default_catalog_pairs());
    }
    Cases(cs)
}

/// How one catalog entry is rendered for the classification prompt.
pub open spec fn catalog_entry_text(p: (Seq<char>, Seq<char>)) -> Seq<char> {
    "\""@ + p.0 + "\": \""@ + p.1 + "\""@
}

/// How the catalog entries are rendered, one per line.
pub open spec fn catalog_entry_texts(ps: Seq<(Seq<char>, Seq<char>)>) -> Seq<Seq<char>>
    decreases ps.len(),
{
    if ps.len() == 0 {
        Seq::empty()
    } else {
        catalog_entry_texts(ps.drop_last()) + seq![catalog_entry_text(ps.last())]
    }
}

/// How the whole catalog is rendered for the classification prompt.
pub open spec fn catalog_text(ps: Seq<(Seq<char>, Seq<char>)>) -> Seq<char> {
    "{\n"@ + join_sep(catalog_entry_texts(ps), ",\n"@) + "\n}"@
}

/// The prompt that asks the model whether the last message of the
/// conversation falls under one of the catalog's cases.
pub open spec fn classification_prompt_spec(
    ms: Seq<Message>,
    ps: Seq<(Seq<char>, Seq<char>)>,
) -> Seq<char> {
    "We just received a new message on our company email. The following is the entirety of the conversation up to this point:  ```"@
        + conversation_text(ms)
        + "```\n\nYour job is to decide whether the last message in the conversation is one of the outlined special cases. Here are all of the special cases: ```json\n"@
        + catalog_text(ps)
        + "\n```\n\nYou return a json code-block like ```json\n{\n\t\"case\": null or string\n}\n```\nWhere \"case\" is the key of the situation or `null` if none match. If a previous message matches, but not the last - return `null`. By default assume `null`."@
}

fn catalog_entry_vecs(cases: &Cases) -> (r: Vec<Vec<char>>)
    ensures
        crate::text::views(r@) == catalog_entry_texts(catalog_pairs(cases.0@)),
{
    let n = cases.0.len();
    let mut r: Vec<Vec<char>> = Vec::new();
    let mut i: usize = 0;
    proof {
        assert(crate::text::views(r@) =~= catalog_entry_texts(
            catalog_pairs(cases.0@).subrange(0, 0),
        ));
        assert(catalog_pairs(cases.0@).subrange(0, 0) =~= catalog_pairs(
            cases.0@.subrange(0, 0),
        ));
    }
    while i < n
        invariant
            n == cases.0@.len(),
            i <= n,
            crate::text::views(r@) == catalog_entry_texts(catalog_pairs(cases.0@.subrange(0, i as int))),
        decreases n - i,
    {
        let mut e: Vec<char> = Vec::new();
        crate::text::append_str(&mut e, "\"");
        crate::text::append_str(&mut e, cases.0[i].key.as_str());
        crate::text::append_str(&mut e, "\": \"");
        crate::text::append_str(&mut e, cases.0[i].situation.as_str());
        crate::text::append_str(&mut e, "\"");
        proof {
            assert(e@ == catalog_entry_text(catalog_pairs(cases.0@)[i as int]));
        }
        r.push(e);
        i = i + 1;
        proof {
            let ps = catalog_pairs(cases.0@.subrange(0, i as int));
            assert(ps.drop_last() =~= catalog_pairs(cases.0@.subrange(0, i - 1)));
            assert(ps.last() == catalog_pairs(cases.0@)[i - 1]);
            assert(crate::text::views(r@) =~= catalog_entry_texts(ps));
        }
    }
    proof {
        assert(cases.0@.subrange(0, n as int) =~= cases.0@);
    }
    r
}

/// Renders the classification prompt.
pub fn classification_prompt(interaction: &Vec<Message>, cases: &Cases) -> (r: String)
    ensures
        r@ == classification_prompt_spec(interaction@, catalog_pairs(cases.0@)),
{
    let mut out: Vec<char> = Vec::new();
    crate::text::append_str(
        &mut out,
        "We just received a new message on our company email. The following is the entirety of the conversation up to this point:  ```",
    );
    let conv = crate::mail::render_conversation(interaction);
    crate::text::append_chars(&mut out, &conv);
    crate::text::append_str(
        &mut out,
        "```\n\nYour job is to decide whether the last message in the conversation is one of the outlined special cases. Here are all of the special cases: ```json\n",
    );
    crate::text::append_str(&mut out, "{\n");
    let entries = catalog_entry_vecs(cases);
    let joined = crate::text::join_with(&entries, ",\n");
    crate::text::append_chars(&mut out, &joined);
    crate::text::append_str(&mut out, "\n}");
    crate::text::append_str(
        &mut out,
        "\n```\n\nYou return a json code-block like ```json\n{\n\t\"case\": null or string\n}\n```\nWhere \"case\" is the key of the situation or `null` if none match. If a previous message matches, but not the last - return `null`. By default assume `null`.",
    );
    crate::text::string_of(out)
}

/// What a classification reply yields: a case of the catalog, no case, a
/// key outside the catalog, or an unusable reply.
pub enum ClassifyRes {
    Matched(int),
    NoMatch,
    BadKey(Seq<char>),
    BadReply,
}

/// How a classification reply is read: its `json` block must be an object;
/// a missing or null `case` field means no case matched, a string names a
/// case, which must resolve against the catalog, and anything else is
/// unusable.
pub open spec fn classify_of(reply: Seq<char>, cs: Seq<Case>) -> ClassifyRes {
    match codeblock_spec(reply, "json"@) {
        None => ClassifyRes::BadReply,
        Some(block) => match json_object_of(block) {
            None => ClassifyRes::BadReply,
            Some(obj) => match spec_lookup(obj, "case"@) {
                None => ClassifyRes::NoMatch,
                Some(JsonV::Null) => ClassifyRes::NoMatch,
                Some(JsonV::Str(k)) => match find_case(cs, k) {
                    Some(i) => ClassifyRes::Matched(i),
                    None => ClassifyRes::BadKey(k),
                },
                Some(_) => ClassifyRes::BadReply,
            },
        },
    }
}

/// Resolves a classification reply against the catalog.
pub fn determine_case(reply: &str, cases: &Cases) -> (r: Result<Option<Case>, TriageError>)
    ensures
        match classify_of(reply@, cases.0@) {
            ClassifyRes::Matched(i) => r matches Ok(c) && (c matches Some(c) && c
                == cases.0@[i]),
            ClassifyRes::NoMatch => r matches Ok(c) && c is None,
            ClassifyRes::BadKey(k) => r matches Err(e) && (e matches
                TriageError::UnknownCaseKey(s) && s@ == k),
            ClassifyRes::BadReply => r matches Err(e) && e is MalformedModelOutput,
        },
{
    let tv = crate::text::chars_of(reply);
    let tag = crate::text::chars_of("json");
    let block = match crate::text::extract_block(&tv, &tag) {
        Some(b) => b,
        None => {
            return Err(TriageError::MalformedModelOutput(bad_classify_msg(reply)));
        },
    };
    let block_str = crate::text::string_of(block);
    let pairs = match crate::json::parse_json_object(block_str.as_str()) {
        Ok(p) => p,
        Err(_) => {
            return Err(TriageError::MalformedModelOutput(bad_classify_msg(reply)));
        },
    };
    proof {
        assert(crate::json::pairs_view(pairs@) =~= json_object_of(block_str@)->Some_0);
    }
    match crate::json::lookup(&pairs, "case") {
        None => Ok(None),
        Some(crate::json::JsonScalar::Null) => Ok(None),
        Some(crate::json::JsonScalar::Str(k)) => {
            proof {
                lemma_find_case_bounds(cases.0@, k@);
            }
            match cases.by_key(k.as_str()) {
                Some(c) => Ok(Some(c.clone())),
                None => Err(TriageError::UnknownCaseKey(k.clone())),
            }
        },
        Some(_) => Err(TriageError::MalformedModelOutput(bad_classify_msg(reply))),
    }
}

fn bad_classify_msg(reply: &str) -> String {
    let mut m = String::new();
    m.append("the classification reply was unusable:\n");
    m.append(reply);
    m
}

} // verus!
