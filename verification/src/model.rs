//! Model tiers, their cost, and the shape of a model reply.
//!
//! The transport that carries a prompt to the model lives outside the
//! library; what comes back is handed in as a `Response` value, and
//! everything the pipeline reads out of it is verified.

use vstd::prelude::*;
use crate::score::Rat;
use crate::text::chars_of;
use crate::text::codeblock_spec;
use crate::text::contains_seq;
use crate::text::extract_block;
use crate::text::string_of;

verus! {

/// A model tier. The first three name speeds, the last three the same
/// tiers by family name.
#[derive(Debug, Clone, Copy, PartialEq, Eq, Structural)]
pub enum Model {
    Fast,
    Medium,
    Slow,
    Haiku,
    Sonnet,
    Opus,
}

/// What a tier costs, in cents per million tokens.
#[derive(Debug, Clone, Copy, PartialEq, Eq, Structural)]
pub struct Cost {
    pub million_input_tokens: u64,
    pub million_output_tokens: u64,
}

/// The wire name of each tier.
pub open spec fn model_name(m: Model) -> Seq<char> {
    match m {
        Model::Fast => "haiku-20240307"@,
        Model::Medium => "sonnet-20240229"@,
        Model::Slow => "opus-20240229"@,
        Model::Haiku => "haiku-20240307"@,
        Model::Sonnet => "sonnet-20240229"@,
        Model::Opus => "opus-20240229"@,
    }
}

/// The tier a wire name denotes, by the first family marker it holds.
pub open spec fn spec_model_from(s: Seq<char>) -> Model {
    if contains_seq(s, "haiku"@) {
        Model::Fast
    } else if contains_seq(s, "sonnet"@) {
        Model::Medium
    } else {
        Model::Slow
    }
}

/// The cost of each tier.
pub open spec fn cost_of(m: Model) -> Cost {
    match m {
        Model::Fast => Cost { million_input_tokens: 25, million_output_tokens: 125 },
        Model::Medium => Cost { million_input_tokens: 300, million_output_tokens: 1500 },
        Model::Slow => Cost { million_input_tokens: 1500, million_output_tokens: 7500 },
        Model::Haiku => Cost { million_input_tokens: 25, million_output_tokens: 125 },
        Model::Sonnet => Cost { million_input_tokens: 300, million_output_tokens: 1500 },
        Model::Opus => Cost { million_input_tokens: 1500, million_output_tokens: 7500 },
    }
}

impl Model {
    /// The name the tier goes by on the wire.
    pub fn to_str(&self) -> (r: &'static str)
        ensures
            r@ == model_name(*self),
    {
        match self {
            Model::Fast => "haiku-20240307",
            Model::Medium => "sonnet-20240229",
            Model::Slow => "opus-20240229",
            Model::Haiku => "haiku-20240307",
            Model::Sonnet => "sonnet-20240229",
            Model::Opus => "opus-20240229",
        }
    }

    /// The tier a wire name denotes. The name must hold one of the three
    /// family markers.
    pub fn from_str(s: &str) -> (r: Model)
        requires
            contains_seq(s@, "haiku"@) || contains_seq(s@, "sonnet"@) || contains_seq(
                s@,
                "opus"@,
            ),
        ensures
            r == spec_model_from(s@),
    {
        let v = chars_of(s);
        let haiku = chars_of("haiku");
        let sonnet = chars_of("sonnet");
        if crate::text::contains_chars(&v, &haiku) {
            Model::Fast
        } else if crate::text::contains_chars(&v, &sonnet) {
            Model::Medium
        } else {
            Model::Slow
        }
    }

    /// What the tier costs.
    pub fn cost(&self) -> (r: Cost)
        ensures
            r == cost_of(*self),
    {
        match self {
            Model::Fast | Model::Haiku => Cost {
                million_input_tokens: 25,
                million_output_tokens: 125,
            },
            Model::Medium | Model::Sonnet => Cost {
                million_input_tokens: 300,
                million_output_tokens: 1500,
            },
            Model::Slow | Model::Opus => Cost {
                million_input_tokens: 1500,
                million_output_tokens: 7500,
            },
        }
    }
}

/// Token counts of one exchange.
#[derive(Debug, Clone, Copy, PartialEq, Eq, Structural)]
pub struct Usage {
    pub input_tokens: u32,
    pub output_tokens: u32,
}

/// One block of reply text.
#[derive(Debug, Clone)]
pub struct Content {
    pub content_type: String,
    pub text: String,
}

/// A model reply, as the transport hands it in.
#[derive(Debug)]
pub struct Response {
    pub id: String,
    pub response_type: String,
    pub role: String,
    pub content: Vec<Content>,
    pub model: String,
    pub stop_reason: String,
    pub stop_sequence: Option<String>,
    pub usage: Usage,
}

/// What one reply cost, in cents: tokens times the tier's rate, divided by
/// a million.
pub open spec fn spec_cost_cents(r: Response) -> Rat {
    let c = cost_of(spec_model_from(r.model@));
    Rat {
        num: (r.usage.input_tokens * c.million_input_tokens + r.usage.output_tokens
            * c.million_output_tokens) as i128,
        den: 1_000_000,
    }
}

impl Response {
    /// The reply's text: its first content block.
    pub fn text(&self) -> (r: String)
        requires
            self.content@.len() >= 1,
        ensures
            r@ == self.content@[0].text@,
    {
        self.content[0].text.clone()
    }

    /// What the reply cost, in cents, as an exact rational. The reply's
    /// model name must hold one of the three family markers.
    pub fn cost_cents(&self) -> (r: Rat)
        requires
            contains_seq(self.model@, "haiku"@) || contains_seq(self.model@, "sonnet"@)
                || contains_seq(self.model@, "opus"@),
        ensures
            r == spec_cost_cents(*self),
            r.wf(),
    {
        let c = Model::from_str(self.model.as_str()).cost();
        proof {
            assert(c.million_input_tokens <= 7500 && c.million_output_tokens <= 7500);
            assert(0 <= (self.usage.input_tokens as int) * (c.million_input_tokens as int)
                <= 0x1_0000_0000 * 7500) by (nonlinear_arith)
                requires
                    0 <= self.usage.input_tokens < 0x1_0000_0000,
                    0 <= c.million_input_tokens <= 7500,
            ;
            assert(0 <= (self.usage.output_tokens as int) * (c.million_output_tokens as int)
                <= 0x1_0000_0000 * 7500) by (nonlinear_arith)
                requires
                    0 <= self.usage.output_tokens < 0x1_0000_0000,
                    0 <= c.million_output_tokens <= 7500,
            ;
        }
        let num = (self.usage.input_tokens as i128) * (c.million_input_tokens as i128) + (
        self.usage.output_tokens as i128) * (c.million_output_tokens as i128);
        Rat { num, den: 1_000_000 }
    }

    /// The first code block of the reply whose opening fence is followed by
    /// `extension`; `None` when the reply holds no such block.
    pub fn extract_codeblock(&self, extension: &str) -> (r: Option<String>)
        requires
            self.content@.len() >= 1,
        ensures
            match r {
                Some(b) => codeblock_spec(self.content@[0].text@, extension@) == Some(b@),
                None => codeblock_spec(self.content@[0].text@, extension@) is None,
            },
    {
        let txt = self.text();
        let tv = chars_of(txt.as_str());
        let tag = chars_of(extension);
        match extract_block(&tv, &tag) {
            Some(b) => Some(string_of(b)),
            None => None,
        }
    }
}

} // verus!
