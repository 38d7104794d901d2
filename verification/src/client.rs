//! The provider-client capability: one operation, "send a prompt, get text
//! back", with a closed error taxonomy, usable through any implementation.

use vstd::prelude::*;

use crate::text::{dec_str, u64_to_string};

verus! {

/// Errors a provider client can fail with.  The gateway treats every variant
/// uniformly as a retryable provider failure.
#[derive(Debug)]
pub enum ClientError {
    /// Transport or network failure, with a diagnostic string.
    Http(String),
    /// The provider signaled throttling, with the advised wait.
    RateLimit { retry_after_ms: u64 },
    /// The credential was rejected.
    AuthError(String),
    /// No response within the client's time budget.
    Timeout,
    /// A non-success provider response other than throttling or auth.
    Upstream(String),
}

/// The diagnostic line for a client error.
pub open spec fn client_error_text(e: ClientError) -> Seq<char> {
    match e {
        ClientError::Http(s) => "HTTP error: "@ + s@,
        ClientError::RateLimit { retry_after_ms } => "Rate limited, retry after "@ + dec_str(
            retry_after_ms as nat,
        ) + "ms"@,
        ClientError::AuthError(s) => "Auth error: "@ + s@,
        ClientError::Timeout => "Request timed out"@,
        ClientError::Upstream(s) => "Upstream error: "@ + s@,
    }
}

impl ClientError {
    /// The diagnostic line for this error.
    pub fn describe(&self) -> (r: String)
        ensures
            r@ == client_error_text(*self),
    {
        match self {
            ClientError::Http(s) => {
                let mut m = String::from_str("HTTP error: ");
                m.append(s.as_str());
                m
            },
            ClientError::RateLimit { retry_after_ms } => {
                let mut m = String::from_str("Rate limited, retry after ");
                let d = u64_to_string(*retry_after_ms);
                m.append(d.as_str());
                m.append("ms");
                m
            },
            ClientError::AuthError(s) => {
                let mut m = String::from_str("Auth error: ");
                m.append(s.as_str());
                m
            },
            ClientError::Timeout => String::from_str("Request timed out"),
            ClientError::Upstream(s) => {
                let mut m = String::from_str("Upstream error: ");
                m.append(s.as_str());
                m
            },
        }
    }
}

/// Whether two client errors are the same error: the same variant with the
/// same content.
pub open spec fn same_client_error(a: ClientError, b: ClientError) -> bool {
    match (a, b) {
        (ClientError::Http(x), ClientError::Http(y)) => x@ == y@,
        (
            ClientError::RateLimit { retry_after_ms: x },
            ClientError::RateLimit { retry_after_ms: y },
        ) => x == y,
        (ClientError::AuthError(x), ClientError::AuthError(y)) => x@ == y@,
        (ClientError::Timeout, ClientError::Timeout) => true,
        (ClientError::Upstream(x), ClientError::Upstream(y)) => x@ == y@,
        _ => false,
    }
}

impl ClientError {
    /// An equal copy of this error: same variant, same content, same
    /// diagnostic line.
    pub fn duplicate(&self) -> (r: ClientError)
        ensures
            same_client_error(r, *self),
            client_error_text(r) == client_error_text(*self),
    {
        match self {
            ClientError::Http(s) => ClientError::Http(s.clone()),
            ClientError::RateLimit { retry_after_ms } => ClientError::RateLimit {
                retry_after_ms: *retry_after_ms,
            },
            ClientError::AuthError(s) => ClientError::AuthError(s.clone()),
            ClientError::Timeout => ClientError::Timeout,
            ClientError::Upstream(s) => ClientError::Upstream(s.clone()),
        }
    }
}

/// The wait a throttled provider advises, in milliseconds: the header value
/// is in seconds; without one, five seconds.
pub open spec fn advised_wait_ms(retry_after_secs: Option<u64>) -> int {
    match retry_after_secs {
        Some(s) => if s * 1000 > u64::MAX {
            u64::MAX as int
        } else {
            s * 1000
        },
        None => 5000,
    }
}

/// Classify a non-success provider status into a client error.  Status
/// comparison and the advised-wait arithmetic are the decision logic of the
/// network client; transport itself stays with the caller.
pub fn classify_provider_status(status: u16, retry_after_secs: Option<u64>, detail: String) -> (r:
    ClientError)
    ensures
        status == 429 ==> (r matches ClientError::RateLimit { retry_after_ms } && retry_after_ms
            as int == advised_wait_ms(retry_after_secs)),
        status == 401 ==> (r matches ClientError::AuthError(m) && m@ == "Invalid API key"@),
        (status != 429 && status != 401) ==> (r matches ClientError::Upstream(m) && m@ == detail@),
{
    if status == 429 {
        let ms: u64 = match retry_after_secs {
            Some(s) => if s > u64::MAX / 1000 {
                u64::MAX
            } else {
                s * 1000
            },
            None => 5000,
        };
        ClientError::RateLimit { retry_after_ms: ms }
    } else if status == 401 {
        ClientError::AuthError(String::from_str("Invalid API key"))
    } else {
        ClientError::Upstream(detail)
    }
}

/// Ghost content of one completed provider call: the text of a successful
/// completion, or the diagnostic line of the failure.
pub enum ClientReply {
    Text(Seq<char>),
    Failure(Seq<char>),
}

/// Ghost record of one completed provider call.
pub struct CallRecord {
    pub prompt: Seq<char>,
    pub reply: ClientReply,
}

/// The ghost record content of one call's outcome.
pub open spec fn reply_of(r: Result<String, ClientError>) -> ClientReply {
    match r {
        Ok(s) => ClientReply::Text(s@),
        Err(e) => ClientReply::Failure(client_error_text(e)),
    }
}

/// Capability for sending one prompt to a text-generation provider and
/// getting raw text back.  `history` is the ghost log of completed calls;
/// `complete` promises nothing about the reply itself -- a provider may
/// answer or fail arbitrarily -- only that the call is appended to the log.
pub trait LlmClient: Sized {
    /// Ghost log of the calls completed so far, oldest first.
    spec fn history(&self) -> Seq<CallRecord>;

    /// Send `prompt`, get the raw text reply or a client error.
    fn complete(&mut self, prompt: &str) -> (r: Result<String, ClientError>)
        ensures
            final(self).history() == old(self).history().push(
                CallRecord { prompt: prompt@, reply: reply_of(r) },
            ),
    ;
}

} // verus!
