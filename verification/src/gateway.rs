//! The structuring gateway: it builds prompts, invokes the provider client,
//! gates every reply through JSON parsing, schema validation and graph
//! decoding, runs domain validation on success, and self-corrects the
//! provider across a bounded number of attempts.

use vstd::prelude::*;

use crate::client::{client_error_text, CallRecord, ClientReply, LlmClient};
use crate::domain::{domain_confidence, domain_validate, domain_warnings, DomainResult};
use crate::graph::Graph;
use crate::json::{decode_graph, decoded};
use crate::schema_validator::{
    json_parses, parse_diagnostic, schema_compiles, schema_text, schema_verdict, SchemaCheck,
    SchemaValidator, ValidationTarget, ALGORITHM_SCHEMA, CONCEPT_SCHEMA, ENTITY_SCHEMA,
    SCENARIO_SCHEMA,
};
use crate::text::dec_str;
use crate::text::u64_to_string;

verus! {

/// How many provider calls one structuring call may consume.
pub const MAX_RETRIES: u8 = 3;

/// The fixed pause between attempts, for callers that schedule the retries:
/// a fixed interval by design, not exponential backoff.
pub const RETRY_DELAY_MS: u64 = 500;

/// Terminal errors of a structuring call.
#[derive(Debug)]
pub enum GatewayError {
    /// Reserved for an immediate, non-retryable provider rejection.
    ApiError(String),
    /// Every attempt was consumed without a structurally valid decode.
    ExhaustedRetries { attempts: u8, last_error: String },
}

/// The diagnostic line for a gateway error.
pub open spec fn gateway_error_text(e: GatewayError) -> Seq<char> {
    match e {
        GatewayError::ApiError(m) => "LLM API error: "@ + m@,
        GatewayError::ExhaustedRetries { attempts, last_error } => "Exhausted "@ + dec_str(
            attempts as nat,
        ) + " retries. Last error: "@ + last_error@,
    }
}

impl GatewayError {
    /// The diagnostic line for this error.
    pub fn describe(&self) -> (r: String)
        ensures
            r@ == gateway_error_text(*self),
    {
        match self {
            GatewayError::ApiError(m) => {
                let mut s = String::from_str("LLM API error: ");
                s.append(m.as_str());
                s
            },
            GatewayError::ExhaustedRetries { attempts, last_error } => {
                let mut s = String::from_str("Exhausted ");
                let d = u64_to_string(*attempts as u64);
                s.append(d.as_str());
                s.append(" retries. Last error: ");
                s.append(last_error.as_str());
                s
            },
        }
    }
}

/// The result of a successful structuring call.
#[derive(Debug)]
pub struct StructuredOutput {
    /// The decoded, schema-valid graph.
    pub graph: Graph,
    /// Domain confidence, in hundredths of the unit scale.
    pub confidence: u32,
    /// Domain warnings, in the order they were emitted.
    pub warnings: Vec<String>,
    /// How many provider calls were consumed (at least 1).
    pub attempts: u8,
}

// ---------------------------------------------------------------------------
// Prompts
// ---------------------------------------------------------------------------

pub const INITIAL_PROMPT_HEAD: &'static str =
    "You are a structured data extraction engine. Return ONLY valid JSON matching this schema. No markdown, no preamble, no explanation.\n\nSchema:\n";

pub const PROMPT_INPUT_SEP: &'static str = "\n\nInput:\n";

pub const CORRECTION_PROMPT_HEAD: &'static str =
    "Your previous response was invalid. Fix it.\n\nError: ";

pub const CORRECTION_BAD_SEP: &'static str = "\n\nYour invalid response:\n";

pub const CORRECTION_SCHEMA_SEP: &'static str = "\n\nRequired schema:\n";

pub const CORRECTION_INPUT_SEP: &'static str = "\n\nOriginal input:\n";

pub const CORRECTION_TAIL: &'static str = "\n\nReturn only the corrected JSON object:";

/// The first prompt of a call: instructions, the target's schema text, and
/// the raw input verbatim.
pub open spec fn initial_prompt_text(target: ValidationTarget, raw: Seq<char>) -> Seq<char> {
    INITIAL_PROMPT_HEAD@ + schema_text(target) + PROMPT_INPUT_SEP@ + raw
}

/// A correction prompt: the exact prior bad output and the exact validation
/// error, the schema, and the raw input again.
pub open spec fn correction_prompt_text(
    target: ValidationTarget,
    raw: Seq<char>,
    bad: Seq<char>,
    error: Seq<char>,
) -> Seq<char> {
    CORRECTION_PROMPT_HEAD@ + error + CORRECTION_BAD_SEP@ + bad + CORRECTION_SCHEMA_SEP@
        + schema_text(target) + CORRECTION_INPUT_SEP@ + raw + CORRECTION_TAIL@
}

/// The schema text embedded in prompts for one target.
pub fn schema_for_prompt(target: ValidationTarget) -> (r: &'static str)
    ensures
        r@ == schema_text(target),
{
    match target {
        ValidationTarget::Concept => CONCEPT_SCHEMA,
        ValidationTarget::Entity => ENTITY_SCHEMA,
        ValidationTarget::Scenario => SCENARIO_SCHEMA,
        ValidationTarget::Algorithm => ALGORITHM_SCHEMA,
    }
}

/// Build the initial prompt.
pub fn build_initial_prompt(raw_input: &str, target: ValidationTarget) -> (r: String)
    ensures
        r@ == initial_prompt_text(target, raw_input@),
{
    let mut s = String::from_str(INITIAL_PROMPT_HEAD);
    s.append(schema_for_prompt(target));
    s.append(PROMPT_INPUT_SEP);
    s.append(raw_input);
    s
}

/// Build a correction prompt.
pub fn build_correction_prompt(
    raw_input: &str,
    target: ValidationTarget,
    bad_output: &str,
    error: &str,
) -> (r: String)
    ensures
        r@ == correction_prompt_text(target, raw_input@, bad_output@, error@),
{
    let mut s = String::from_str(CORRECTION_PROMPT_HEAD);
    s.append(error);
    s.append(CORRECTION_BAD_SEP);
    s.append(bad_output);
    s.append(CORRECTION_SCHEMA_SEP);
    s.append(schema_for_prompt(target));
    s.append(CORRECTION_INPUT_SEP);
    s.append(raw_input);
    s.append(CORRECTION_TAIL);
    s
}

// ---------------------------------------------------------------------------
// The validation gate for one reply
// ---------------------------------------------------------------------------

/// Whether one reply text passes every validation stage: it parses as JSON,
/// conforms to the target's schema, and decodes to a graph.
pub open spec fn reply_yields(target: ValidationTarget, text: Seq<char>) -> bool {
    json_parses(text) && schema_verdict(target, text) is None && decoded(text) is Some
}

/// Whether one recorded provider call yields a structurally valid graph.
pub open spec fn attempt_succeeds(target: ValidationTarget, rec: CallRecord) -> bool {
    match rec.reply {
        ClientReply::Text(s) => reply_yields(target, s),
        ClientReply::Failure(_) => false,
    }
}

/// Why one provider reply was rejected by the validation stages.
pub enum StageFailure {
    /// The reply is not well-formed JSON; carries the parser's diagnostic.
    InvalidJson(String),
    /// The reply violates the target's schema; carries the first violation.
    SchemaViolation(String),
    /// The reply is schema-valid JSON but does not encode a graph.
    Deserialization(String),
}

/// The diagnostic line a stage failure contributes to the correction prompt.
pub open spec fn stage_failure_text(f: StageFailure) -> Seq<char> {
    match f {
        StageFailure::InvalidJson(m) => "Invalid JSON: "@ + m@,
        StageFailure::SchemaViolation(m) => "Schema violation: "@ + m@,
        StageFailure::Deserialization(m) => "Deserialization failed: "@ + m@,
    }
}

impl StageFailure {
    /// The diagnostic line for this failure.
    pub fn message(&self) -> (r: String)
        ensures
            r@ == stage_failure_text(*self),
    {
        match self {
            StageFailure::InvalidJson(m) => {
                let mut s = String::from_str("Invalid JSON: ");
                s.append(m.as_str());
                s
            },
            StageFailure::SchemaViolation(m) => {
                let mut s = String::from_str("Schema violation: ");
                s.append(m.as_str());
                s
            },
            StageFailure::Deserialization(m) => {
                let mut s = String::from_str("Deserialization failed: ");
                s.append(m.as_str());
                s
            },
        }
    }
}

/// The diagnostic line recorded when a reply text fails a stage: the first
/// failing stage decides it.
pub open spec fn reply_error_text(target: ValidationTarget, text: Seq<char>) -> Seq<char> {
    if !json_parses(text) {
        "Invalid JSON: "@ + parse_diagnostic(text)
    } else if schema_verdict(target, text) is Some {
        "Schema violation: "@ + schema_verdict(target, text).unwrap()
    } else {
        "Deserialization failed: "@ + "the reply does not encode a graph"@
    }
}

/// The diagnostic line one failed attempt records: the provider failure's
/// line for a client error, the failing stage's line for a rejected reply.
pub open spec fn attempt_error_line(target: ValidationTarget, rec: CallRecord) -> Seq<char> {
    match rec.reply {
        ClientReply::Text(s) => reply_error_text(target, s),
        ClientReply::Failure(f) => "API error: "@ + f,
    }
}

/// Run one reply text through every validation stage: JSON parsing, schema
/// validation, graph decoding, and (on success) domain validation.  Callers
/// that drive the provider themselves can reuse this to make the same
/// decisions the gateway makes.
pub fn process_response(
    validator: &SchemaValidator,
    response: &str,
    target: ValidationTarget,
) -> (r: Result<(Graph, DomainResult), StageFailure>)
    ensures
        r.is_ok() == reply_yields(target, response@),
        match r {
            Ok((g, d)) => decoded(response@) == Some(g@) && d.warnings.deep_view()
                == domain_warnings(g@, target) && d.confidence as int == domain_confidence(
                g@,
                target,
            ),
            Err(f) => match f {
                StageFailure::InvalidJson(m) => !json_parses(response@) && m@ == parse_diagnostic(
                    response@,
                ),
                StageFailure::SchemaViolation(m) => json_parses(response@) && schema_verdict(
                    target,
                    response@,
                ) == Some(m@),
                StageFailure::Deserialization(m) => json_parses(response@) && schema_verdict(
                    target,
                    response@,
                ) is None && decoded(response@) is None && m@
                    == "the reply does not encode a graph"@,
            },
        },
        (r matches Err(f) ==> stage_failure_text(f) == reply_error_text(target, response@)),
{
    match validator.check_text(response, target) {
        SchemaCheck::Passed => {},
        SchemaCheck::BadJson(m) => {
            return Err(StageFailure::InvalidJson(m));
        },
        SchemaCheck::Violation(m) => {
            return Err(StageFailure::SchemaViolation(m));
        },
    }
    match decode_graph(response) {
        Some(g) => {
            let d = domain_validate(&g, &target);
            Ok((g, d))
        },
        None => Err(
            StageFailure::Deserialization(
                String::from_str("the reply does not encode a graph"),
            ),
        ),
    }
}

// ---------------------------------------------------------------------------
// The gateway
// ---------------------------------------------------------------------------

/// The text of the last reply that arrived as text (rather than as a client
/// error) among the records: what a correction prompt embeds.
pub open spec fn last_text_reply(records: Seq<CallRecord>) -> Option<Seq<char>>
    decreases records.len(),
{
    if records.len() == 0 {
        None
    } else {
        match records.last().reply {
            ClientReply::Text(s) => Some(s),
            ClientReply::Failure(_) => last_text_reply(records.drop_last()),
        }
    }
}

/// The prompt owed after the failed attempts recorded in `prior`: the
/// initial prompt while no reply text exists to correct, else a correction
/// prompt embedding the last bad reply text and the last attempt's exact
/// error line.
pub open spec fn prompt_matches(
    target: ValidationTarget,
    raw: Seq<char>,
    prior: Seq<CallRecord>,
    prompt: Seq<char>,
) -> bool {
    if last_text_reply(prior) is None {
        prompt == initial_prompt_text(target, raw)
    } else {
        prompt == correction_prompt_text(
            target,
            raw,
            last_text_reply(prior).unwrap(),
            attempt_error_line(target, prior.last()),
        )
    }
}

/// The retry/self-correction gateway, generic over the provider client.
pub struct LlmGateway<C: LlmClient> {
    /// The provider client; its ghost history records every call made.
    pub client: C,
    /// The compiled schemas, one per target.
    pub schema_validator: SchemaValidator,
}

impl<C: LlmClient> LlmGateway<C> {
    /// Build a gateway around a client, compiling the four schemas once.
    /// Schema compilation failure is a configuration error and is fatal for
    /// the gateway.
    pub fn new(client: C) -> (r: Result<LlmGateway<C>, String>)
        ensures
            r matches Ok(gw) ==> gw.client == client,
            r.is_ok() == (schema_compiles(CONCEPT_SCHEMA@) && schema_compiles(ENTITY_SCHEMA@)
                && schema_compiles(SCENARIO_SCHEMA@) && schema_compiles(ALGORITHM_SCHEMA@)),
    {
        match SchemaValidator::new() {
            Ok(v) => Ok(LlmGateway { client, schema_validator: v }),
            Err(e) => Err(e),
        }
    }

    /// Make one provider call and run the reply through the validation stages, updating
    /// the correction state exactly as one loop iteration does.
    fn run_attempt(
        &mut self,
        raw_input: &str,
        target: ValidationTarget,
        previous_output: &mut Option<String>,
        last_error: &mut String,
    ) -> (r: Option<(Graph, DomainResult)>)
        ensures
            ({
                let pre = old(self).client.history();
                let post = final(self).client.history();
                let rec = post.last();
                &&& post.len() == pre.len() + 1
                &&& post.take(pre.len() as int) == pre
                &&& rec.prompt == (match *old(previous_output) {
                    Option::None => initial_prompt_text(target, raw_input@),
                    Option::Some(bad) => correction_prompt_text(
                        target,
                        raw_input@,
                        bad@,
                        old(last_error)@,
                    ),
                })
                &&& match r {
                    Option::Some((g, d)) => {
                        &&& attempt_succeeds(target, rec)
                        &&& (match rec.reply {
                            ClientReply::Text(s) => decoded(s) == Some(g@),
                            ClientReply::Failure(_) => false,
                        })
                        &&& d.warnings.deep_view() == domain_warnings(g@, target)
                        &&& d.confidence as int == domain_confidence(g@, target)
                    },
                    Option::None => {
                        &&& !attempt_succeeds(target, rec)
                        &&& final(last_error)@ == attempt_error_line(target, rec)
                        &&& (match rec.reply {
                            ClientReply::Text(s) => (*final(previous_output)) matches Some(p)
                                && p@ == s,
                            ClientReply::Failure(_) => *final(previous_output) == *old(
                                previous_output,
                            ),
                        })
                    },
                }
            }),
    {
        let prompt = match previous_output {
            Option::None => build_initial_prompt(raw_input, target),
            Option::Some(bad) => build_correction_prompt(
                raw_input,
                target,
                bad.as_str(),
                last_error.as_str(),
            ),
        };
        let resp = self.client.complete(prompt.as_str());
        match resp {
            Result::Err(e) => {
                let mut msg = String::from_str("API error: ");
                let d = e.describe();
                msg.append(d.as_str());
                proof {
                    assert(msg@ == "API error: "@ + client_error_text(e));
                }
                *last_error = msg;
                None
            },
            Result::Ok(raw) => {
                match process_response(&self.schema_validator, raw.as_str(), target) {
                    Result::Ok((g, d)) => Some((g, d)),
                    Result::Err(f) => {
                        let msg = f.message();
                        proof {
                            assert(msg@ == reply_error_text(target, raw@));
                        }
                        *last_error = msg;
                        *previous_output = Some(raw);
                        None
                    },
                }
            },
        }
    }

    /// One end-to-end structuring call.
    ///
    /// For up to `MAX_RETRIES` attempts: build the prompt (initial first,
    /// then corrections embedding the last bad reply and error), invoke the
    /// client, and run the reply through the validation stages.  The first structurally
    /// valid decode returns success immediately -- with the domain warnings
    /// and confidence of that graph and the number of calls consumed --
    /// whatever its domain outcome.  When every attempt fails, the call ends
    /// with `ExhaustedRetries`.  Callers that need the fixed pause between
    /// attempts schedule it around the provider call; this loop makes the
    /// decisions only.
    ///
    /// The contract pins the retry arithmetic down: a first reply that
    /// passes the validation stages means success after exactly one call;
    /// otherwise every call but the last failed the stages, so a run of
    /// failing replies followed by one valid reply costs exactly one call
    /// per failure plus one; and a failing error carries all the attempts
    /// made.
    pub fn structure_input(&mut self, raw_input: &str, target: ValidationTarget) -> (r: Result<
        StructuredOutput,
        GatewayError,
    >)
        ensures
            ({
                let pre = old(self).client.history();
                let post = final(self).client.history();
                &&& pre.len() < post.len() <= pre.len() + 3
                &&& post.take(pre.len() as int) == pre
                &&& forall|i: int|
                    pre.len() <= i < post.len() - 1 ==> !attempt_succeeds(
                        target,
                        #[trigger] post[i],
                    )
                &&& forall|i: int|
                    pre.len() <= i < post.len() ==> prompt_matches(
                        target,
                        raw_input@,
                        post.subrange(pre.len() as int, i),
                        (#[trigger] post[i]).prompt,
                    )
                &&& (attempt_succeeds(target, post[pre.len() as int]) ==> post.len() == pre.len()
                    + 1 && r is Ok)
                &&& match r {
                    Result::Ok(out) => {
                        &&& attempt_succeeds(target, post.last())
                        &&& out.attempts as int == post.len() - pre.len()
                        &&& 1 <= out.attempts <= MAX_RETRIES
                        &&& (match post.last().reply {
                            ClientReply::Text(s) => decoded(s) == Some(out.graph@),
                            ClientReply::Failure(_) => false,
                        })
                        &&& out.warnings.deep_view() == domain_warnings(out.graph@, target)
                        &&& out.confidence as int == domain_confidence(out.graph@, target)
                        &&& out.confidence <= 100
                    },
                    Result::Err(e) => {
                        &&& post.len() == pre.len() + 3
                        &&& forall|i: int|
                            pre.len() <= i < post.len() ==> !attempt_succeeds(
                                target,
                                #[trigger] post[i],
                            )
                        &&& (e matches GatewayError::ExhaustedRetries { attempts, last_error }
                            && attempts == MAX_RETRIES && last_error@ == attempt_error_line(
                            target,
                            post.last(),
                        ))
                    },
                }
            }),
    {
        let ghost pre = self.client.history();
        let mut previous_output: Option<String> = None;
        let mut last_error: String = String::new();

        let ghost po0: Option<String> = previous_output;
        let r1 = self.run_attempt(raw_input, target, &mut previous_output, &mut last_error);
        let ghost h1 = self.client.history();
        let ghost rec1 = h1.last();
        proof {
            assert(h1[pre.len() as int] == rec1);
            assert(last_text_reply(Seq::<CallRecord>::empty()) is None);
            assert(rec1.prompt == initial_prompt_text(target, raw_input@));
            assert(prompt_matches(target, raw_input@, Seq::<CallRecord>::empty(), rec1.prompt));
        }
        match r1 {
            Some((g, d)) => {
                proof {
                    let post = self.client.history();
                    crate::domain::lemma_confidence_bounds(g@, target);
                    assert forall|i: int| pre.len() <= i < post.len() implies prompt_matches(
                        target,
                        raw_input@,
                        post.subrange(pre.len() as int, i),
                        (#[trigger] post[i]).prompt,
                    ) by {
                        let prior = post.subrange(pre.len() as int, i);
                        assert(prior =~= Seq::<CallRecord>::empty());
                        assert(prior == Seq::<CallRecord>::empty());
                        assert(post[i] == rec1);
                    }
                }
                return Ok(
                    StructuredOutput {
                        graph: g,
                        confidence: d.confidence,
                        warnings: d.warnings,
                        attempts: 1,
                    },
                );
            },
            None => {},
        }
        // The correction state now reflects the one failed attempt.
        proof {
            assert(seq![rec1].drop_last() =~= Seq::<CallRecord>::empty());
            assert(seq![rec1].drop_last() == Seq::<CallRecord>::empty());
            assert(seq![rec1].last() == rec1);
            match rec1.reply {
                ClientReply::Text(s) => {
                    assert(last_text_reply(seq![rec1]) == Some(s));
                    assert(previous_output matches Some(p) && p@ == s);
                },
                ClientReply::Failure(_) => {
                    assert(last_text_reply(seq![rec1]) is None);
                    assert(previous_output is None);
                },
            }
        }

        let ghost po1: Option<String> = previous_output;
        let ghost le1: Seq<char> = last_error@;
        let r2 = self.run_attempt(raw_input, target, &mut previous_output, &mut last_error);
        let ghost h2 = self.client.history();
        let ghost rec2 = h2.last();
        proof {
            assert(h2.take(h1.len() as int) == h1);
            assert(h2[pre.len() as int] == h1[pre.len() as int]);
            assert(h2[pre.len() as int] == rec1);
            assert(h2[pre.len() as int + 1] == rec2);
            match po1 {
                Option::None => {
                    assert(rec2.prompt == initial_prompt_text(target, raw_input@));
                    assert(last_text_reply(seq![rec1]) is None);
                    assert(prompt_matches(target, raw_input@, seq![rec1], rec2.prompt));
                },
                Option::Some(bad) => {
                    assert(last_text_reply(seq![rec1]) == Some(bad@));
                    assert(le1 == attempt_error_line(target, rec1));
                    assert(seq![rec1].last() == rec1);
                    assert(rec2.prompt == correction_prompt_text(
                        target,
                        raw_input@,
                        last_text_reply(seq![rec1]).unwrap(),
                        attempt_error_line(target, seq![rec1].last()),
                    ));
                    assert(prompt_matches(target, raw_input@, seq![rec1], rec2.prompt));
                },
            }
        }
        match r2 {
            Some((g, d)) => {
                proof {
                    let post = self.client.history();
                    assert(post.take(pre.len() as int) =~= pre);
                    crate::domain::lemma_confidence_bounds(g@, target);
                    assert forall|i: int| pre.len() <= i < post.len() implies prompt_matches(
                        target,
                        raw_input@,
                        post.subrange(pre.len() as int, i),
                        (#[trigger] post[i]).prompt,
                    ) by {
                        let prior = post.subrange(pre.len() as int, i);
                        if i == pre.len() {
                            assert(prior =~= Seq::<CallRecord>::empty());
                            assert(prior == Seq::<CallRecord>::empty());
                            assert(post[i] == rec1);
                        } else {
                            assert(i == pre.len() + 1);
                            assert(prior =~= seq![rec1]);
                            assert(prior == seq![rec1]);
                            assert(post[i] == rec2);
                        }
                    }
                    assert(post[pre.len() as int] == rec1);
                    assert(!attempt_succeeds(target, rec1));
                }
                return Ok(
                    StructuredOutput {
                        graph: g,
                        confidence: d.confidence,
                        warnings: d.warnings,
                        attempts: 2,
                    },
                );
            },
            None => {},
        }
        // The correction state now reflects the two failed attempts.
        proof {
            assert(seq![rec1, rec2].drop_last() =~= seq![rec1]);
            assert(seq![rec1, rec2].drop_last() == seq![rec1]);
            assert(seq![rec1, rec2].last() == rec2);
            match rec2.reply {
                ClientReply::Text(s) => {
                    assert(last_text_reply(seq![rec1, rec2]) == Some(s));
                    assert(previous_output matches Some(p) && p@ == s);
                },
                ClientReply::Failure(_) => {
                    assert(last_text_reply(seq![rec1, rec2]) == last_text_reply(seq![rec1]));
                    assert(previous_output == po1);
                },
            }
        }

        let ghost po2: Option<String> = previous_output;
        let ghost le2: Seq<char> = last_error@;
        let r3 = self.run_attempt(raw_input, target, &mut previous_output, &mut last_error);
        let ghost h3 = self.client.history();
        let ghost rec3 = h3.last();
        proof {
            assert(h3.take(h2.len() as int) == h2);
            assert(h3[pre.len() as int] == h2[pre.len() as int]);
            assert(h3[pre.len() as int + 1] == h2[pre.len() as int + 1]);
            assert(h3[pre.len() as int] == rec1);
            assert(h3[pre.len() as int + 1] == rec2);
            assert(h3[pre.len() as int + 2] == rec3);
            match po2 {
                Option::None => {
                    assert(rec3.prompt == initial_prompt_text(target, raw_input@));
                    assert(last_text_reply(seq![rec1, rec2]) is None);
                    assert(prompt_matches(target, raw_input@, seq![rec1, rec2], rec3.prompt));
                },
                Option::Some(bad) => {
                    assert(last_text_reply(seq![rec1, rec2]) == Some(bad@));
                    assert(le2 == attempt_error_line(target, rec2));
                    assert(seq![rec1, rec2].last() == rec2);
                    assert(rec3.prompt == correction_prompt_text(
                        target,
                        raw_input@,
                        last_text_reply(seq![rec1, rec2]).unwrap(),
                        attempt_error_line(target, seq![rec1, rec2].last()),
                    ));
                    assert(prompt_matches(target, raw_input@, seq![rec1, rec2], rec3.prompt));
                },
            }
            let post = h3;
            assert(post.take(pre.len() as int) =~= pre);
            assert forall|i: int| pre.len() <= i < post.len() implies prompt_matches(
                target,
                raw_input@,
                post.subrange(pre.len() as int, i),
                (#[trigger] post[i]).prompt,
            ) by {
                let prior = post.subrange(pre.len() as int, i);
                if i == pre.len() {
                    assert(prior =~= Seq::<CallRecord>::empty());
                    assert(prior == Seq::<CallRecord>::empty());
                    assert(post[i] == rec1);
                } else if i == pre.len() + 1 {
                    assert(prior =~= seq![rec1]);
                    assert(prior == seq![rec1]);
                    assert(post[i] == rec2);
                } else {
                    assert(i == pre.len() + 2);
                    assert(prior =~= seq![rec1, rec2]);
                    assert(prior == seq![rec1, rec2]);
                    assert(post[i] == rec3);
                }
            }
            assert(!attempt_succeeds(target, rec1));
            assert(!attempt_succeeds(target, rec2));
        }
        match r3 {
            Some((g, d)) => {
                proof {
                    crate::domain::lemma_confidence_bounds(g@, target);
                }
                return Ok(
                    StructuredOutput {
                        graph: g,
                        confidence: d.confidence,
                        warnings: d.warnings,
                        attempts: 3,
                    },
                );
            },
            None => {},
        }
        proof {
            assert(!attempt_succeeds(target, rec3));
            assert(last_error@ == attempt_error_line(target, rec3));
        }
        Err(GatewayError::ExhaustedRetries { attempts: MAX_RETRIES, last_error })
    }
}

} // verus!
