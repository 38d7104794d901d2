//! A deterministic scripted provider client: it replays a fixed ordered list
//! of canned replies, repeating the last entry once the list is exhausted.
//! It drives the retry-path tests.

use vstd::prelude::*;

use crate::client::{
    client_error_text, reply_of, same_client_error, CallRecord, ClientError, ClientReply,
    LlmClient,
};

verus! {

/// Cycles through a fixed list of responses.  The first response can be bad
/// JSON, the second a schema violation, the third valid, and so on.
pub struct MockLlmClient {
    /// The scripted replies, in order; the last one repeats.
    pub responses: Vec<Result<String, ClientError>>,
    /// Every prompt received so far, oldest first.
    pub prompts: Vec<String>,
    /// How many calls were made, saturating at the type's maximum.
    pub count: u8,
}

/// The scripted entry the call with index `i` replays: the entry at that
/// index, with the last entry repeating once the list is exhausted.  An
/// empty script behaves like a client that always times out.
pub open spec fn scripted_entry(responses: Seq<Result<String, ClientError>>, i: int) -> Result<
    String,
    ClientError,
> {
    if responses.len() == 0 {
        Err(ClientError::Timeout)
    } else {
        let idx = if i < responses.len() - 1 {
            i
        } else {
            responses.len() - 1
        };
        responses[idx]
    }
}

/// The ghost reply content of the call with index `i`.
pub open spec fn scripted_reply(responses: Seq<Result<String, ClientError>>, i: int) -> ClientReply {
    reply_of(scripted_entry(responses, i))
}

impl MockLlmClient {
    /// Build a scripted client that replays `responses` in order.
    pub fn new(responses: Vec<Result<String, ClientError>>) -> (r: MockLlmClient)
        ensures
            r.responses@ == responses@,
            r.history() == Seq::<CallRecord>::empty(),
            r.count == 0,
    {
        let r = MockLlmClient { responses, prompts: Vec::new(), count: 0 };
        proof {
            assert(r.history() =~= Seq::<CallRecord>::empty());
        }
        r
    }

    /// How many calls have been made (saturating at the type's maximum).
    pub fn call_count(&self) -> (r: u8)
        ensures
            r == self.count,
    {
        self.count
    }

    /// The prompt received by the call with index `i`.
    pub fn prompt_at(&self, i: usize) -> (r: &String)
        requires
            i < self.history().len(),
        ensures
            r@ == self.history()[i as int].prompt,
    {
        &self.prompts[i]
    }
}

impl LlmClient for MockLlmClient {
    open spec fn history(&self) -> Seq<CallRecord> {
        Seq::new(
            self.prompts@.len(),
            |i: int| CallRecord {
                prompt: self.prompts@[i]@,
                reply: scripted_reply(self.responses@, i),
            },
        )
    }

    fn complete(&mut self, prompt: &str) -> (r: Result<String, ClientError>)
        ensures
            final(self).responses@ == old(self).responses@,
            final(self).prompts@ == old(self).prompts@.push(final(self).prompts@.last()),
            final(self).prompts@.last()@ == prompt@,
            final(self).count == (if old(self).count < 255 {
                (old(self).count + 1) as u8
            } else {
                255u8
            }),
            reply_of(r) == scripted_reply(old(self).responses@, old(self).prompts@.len() as int),
            (match (r, scripted_entry(old(self).responses@, old(self).prompts@.len() as int)) {
                (Ok(s), Ok(s0)) => s@ == s0@,
                (Err(e), Err(e0)) => same_client_error(e, e0),
                _ => false,
            }),
    {
        self.prompts.push(String::from_str(prompt));
        if self.count < 255 {
            self.count = self.count + 1;
        }
        let r: Result<String, ClientError> = if self.responses.len() == 0 {
            Err(ClientError::Timeout)
        } else {
            let base = self.prompts.len() - 1;
            let idx = if base < self.responses.len() - 1 {
                base
            } else {
                self.responses.len() - 1
            };
            match &self.responses[idx] {
                Ok(s) => Ok(s.clone()),
                Err(e) => Err(e.duplicate()),
            }
        };
        proof {
            assert(self.history() =~= old(self).history().push(
                CallRecord { prompt: prompt@, reply: reply_of(r) },
            ));
            assert(self.prompts@ =~= old(self).prompts@.push(self.prompts@.last()));
        }
        r
    }
}

} // verus!
