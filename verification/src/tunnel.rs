//! Tunnel session driver: the target-URL builder, the reconnect-loop
//! decisions, and the dispatch of inbound transport frames.
//!
//! The driver's outer loop and all transport I/O live outside the library;
//! what is here is every decision they take: whether one more attempt may
//! be made, what a received frame asks for, and which frame answers it.

use crate::protocol::{spec_parse, spec_payload_of, Header, MsgType, Proto, ProtocolError};
use vstd::prelude::*;
use vstd::string::{StrSliceExecFns, StringExecFns};

verus! {

/// Relies on url::Url: a parsed absolute URL, carried opaquely from the
/// builder to the transport dial.
#[verifier::external_type_specification]
#[verifier::external_body]
pub struct ExUrl(url::Url);

/// Whether a string parses as an absolute URL.
pub uninterp spec fn url_ok(s: Seq<char>) -> bool;

/// Relies on url::Url::parse: whether a string parses depends on its
/// characters alone.
#[verifier::external_body]
fn parse_ws_url(s: &str) -> (r: Option<url::Url>)
    ensures
        r is Some <==> url_ok(s@),
{
    url::Url::parse(s).ok()
}

/// The tunnel's error taxonomy at session-driver scope.
#[derive(Debug, Clone, Copy, PartialEq, Eq, Structural)]
pub enum TunnelError {
    /// The configured base URL and container id do not form a valid URL.
    InvalidUrl,
    /// The reconnect attempt cap was reached: the only fatal error.
    MaxReconnectAttemptsExceeded,
}

/// Tunnel client configuration.
#[derive(Debug, Clone)]
pub struct TunnelConfig {
    /// Runner base URL; a trailing slash is tolerated and trimmed.
    pub runner_url: String,
    /// Container id, embedded in the target URL path.
    pub container_id: String,
    /// Delay between reconnect attempts, in seconds.
    pub reconnect_delay_secs: u64,
    /// Maximum reconnect attempts; zero means unlimited.
    pub max_reconnect_attempts: u32,
}

impl Default for TunnelConfig {
    /// Empty endpoint, five seconds between attempts, unlimited attempts.
    fn default() -> (c: TunnelConfig)
        ensures
            c.runner_url@ == Seq::<char>::empty(),
            c.container_id@ == Seq::<char>::empty(),
            c.reconnect_delay_secs == 5,
            c.max_reconnect_attempts == 0,
    {
        TunnelConfig {
            runner_url: String::new(),
            container_id: String::new(),
            reconnect_delay_secs: 5,
            max_reconnect_attempts: 0,
        }
    }
}

/// A base with its trailing slashes removed.
pub open spec fn trim_trailing_slashes(s: Seq<char>) -> Seq<char>
    decreases s.len(),
{
    if s.len() > 0 && s.last() == '/' {
        trim_trailing_slashes(s.drop_last())
    } else {
        s
    }
}

/// The characters of the target URL: trimmed base, fixed path, container id.
pub open spec fn ws_url_chars(base: Seq<char>, container_id: Seq<char>) -> Seq<char> {
    trim_trailing_slashes(base) + "/ws/tunnel/"@ + container_id
}

/// One more attempt after a failure: the counter grows (saturating at its
/// type's bound, which a positive cap never reaches).
pub open spec fn saturating_inc(n: u32) -> u32 {
    if n < u32::MAX {
        (n + 1) as u32
    } else {
        u32::MAX
    }
}

/// Main tunnel client: configuration plus the reconnect-loop state.
pub struct TunnelClient {
    /// The configuration the client was built with.
    pub config: TunnelConfig,
    /// Attempts made since the last session that completed without error.
    pub attempts_made: u32,
}

impl TunnelClient {
    /// A client that has not attempted anything yet.
    pub fn new(config: TunnelConfig) -> (c: TunnelClient)
        ensures
            c.config == config,
            c.attempts_made == 0,
    {
        TunnelClient { config, attempts_made: 0 }
    }

    /// Whether the reconnect loop may make one more attempt: always when the
    /// cap is zero (unlimited), otherwise only while fewer attempts than the
    /// cap have been made since the last clean session.
    pub open spec fn spec_may_attempt(self) -> bool {
        self.config.max_reconnect_attempts == 0 || self.attempts_made
            < self.config.max_reconnect_attempts
    }

    /// The state after the loop decided about one attempt whose session (if
    /// granted) failed: a granted attempt is counted, a refusal changes
    /// nothing.
    pub open spec fn spec_step_failed(self) -> TunnelClient {
        if self.spec_may_attempt() {
            TunnelClient { attempts_made: saturating_inc(self.attempts_made), config: self.config }
        } else {
            self
        }
    }

    /// Decide about one more attempt and count it. Grants the attempt exactly
    /// when the cap allows it; a refusal is the reconnect loop's only fatal
    /// exit.
    pub fn begin_attempt(&mut self) -> (proceed: bool)
        ensures
            proceed == old(self).spec_may_attempt(),
            *final(self) == old(self).spec_step_failed(),
    {
        if self.config.max_reconnect_attempts == 0 {
            if self.attempts_made < u32::MAX {
                self.attempts_made = self.attempts_made + 1;
            }
            true
        } else if self.attempts_made < self.config.max_reconnect_attempts {
            self.attempts_made = self.attempts_made + 1;
            true
        } else {
            false
        }
    }

    /// A session completed without error: reset the attempt counter, so an
    /// unbounded sequence of clean reconnects never approaches the cap.
    pub fn record_success(&mut self)
        ensures
            final(self).config == old(self).config,
            final(self).attempts_made == 0,
    {
        self.attempts_made = 0;
    }

    /// Build the full target URL from the configured base and container id.
    /// Succeeds exactly when the built characters form a valid URL.
    pub fn build_ws_url(&self) -> (r: Result<url::Url, TunnelError>)
        ensures
            r is Ok <==> url_ok(ws_url_chars(self.config.runner_url@, self.config.container_id@)),
            r is Err ==> r == Err::<url::Url, TunnelError>(TunnelError::InvalidUrl),
    {
        let base = self.config.runner_url.as_str();
        let total = base.unicode_len();
        let mut end: usize = total;
        proof {
            assert(base@.subrange(0, total as int) =~= base@);
        }
        while end > 0 && base.get_char(end - 1) == '/'
            invariant
                end <= total,
                total == base@.len(),
                trim_trailing_slashes(base@) == trim_trailing_slashes(
                    base@.subrange(0, end as int),
                ),
            decreases end,
        {
            proof {
                assert(base@.subrange(0, end as int).drop_last() =~= base@.subrange(
                    0,
                    end - 1,
                ));
            }
            end = end - 1;
        }
        proof {
            assert(trim_trailing_slashes(base@) =~= base@.subrange(0, end as int));
        }
        let trimmed = base.substring_char(0, end);
        let mut url: String = trimmed.to_owned();
        url.append("/ws/tunnel/");
        url.append(self.config.container_id.as_str());
        proof {
            assert(url@ =~= ws_url_chars(self.config.runner_url@, self.config.container_id@));
        }
        match parse_ws_url(url.as_str()) {
            Some(u) => Ok(u),
            None => Err(TunnelError::InvalidUrl),
        }
    }
}

/// The number of attempts granted among the first `k` decisions of a loop
/// whose every session fails.
pub open spec fn spec_attempts_granted(c: TunnelClient, k: nat) -> nat
    decreases k,
{
    if k == 0 {
        0
    } else {
        spec_attempts_granted(c, (k - 1) as nat) + if spec_after_failed_attempts(
            c,
            (k - 1) as nat,
        ).spec_may_attempt() {
            1nat
        } else {
            0nat
        }
    }
}

/// The client's state after `k` decisions of a loop whose every session
/// fails.
pub open spec fn spec_after_failed_attempts(c: TunnelClient, k: nat) -> TunnelClient
    decreases k,
{
    if k == 0 {
        c
    } else {
        spec_after_failed_attempts(c, (k - 1) as nat).spec_step_failed()
    }
}

/// Under a positive cap, a fresh client whose every session fails is granted
/// exactly the capped number of attempts, no matter how long the loop runs.
pub proof fn lemma_reconnect_attempts_capped(c: TunnelClient, k: nat)
    requires
        c.attempts_made == 0,
        c.config.max_reconnect_attempts > 0,
    ensures
        spec_attempts_granted(c, k) == if k <= c.config.max_reconnect_attempts {
            k
        } else {
            c.config.max_reconnect_attempts as nat
        },
    decreases k,
{
    if k > 0 {
        lemma_reconnect_attempts_capped(c, (k - 1) as nat);
        lemma_after_failed_attempts_counter(c, (k - 1) as nat);
    }
}

/// Under a positive cap, the counter after `k` all-failing decisions is the
/// smaller of `k` and the cap, and the configuration never changes.
pub proof fn lemma_after_failed_attempts_counter(c: TunnelClient, k: nat)
    requires
        c.attempts_made == 0,
        c.config.max_reconnect_attempts > 0,
    ensures
        spec_after_failed_attempts(c, k).config == c.config,
        spec_after_failed_attempts(c, k).attempts_made == if k
            <= c.config.max_reconnect_attempts {
            k
        } else {
            c.config.max_reconnect_attempts as nat
        },
    decreases k,
{
    if k > 0 {
        lemma_after_failed_attempts_counter(c, (k - 1) as nat);
    }
}

/// With no cap configured, the loop never stops: every decision grants the
/// attempt.
pub proof fn lemma_reconnect_unbounded(c: TunnelClient, k: nat)
    requires
        c.config.max_reconnect_attempts == 0,
    ensures
        spec_attempts_granted(c, k) == k,
    decreases k,
{
    if k > 0 {
        lemma_reconnect_unbounded(c, (k - 1) as nat);
        lemma_unbounded_config_kept(c, (k - 1) as nat);
    }
}

/// With no cap configured, the configuration never changes along the loop.
proof fn lemma_unbounded_config_kept(c: TunnelClient, k: nat)
    requires
        c.config.max_reconnect_attempts == 0,
    ensures
        spec_after_failed_attempts(c, k).config == c.config,
    decreases k,
{
    if k > 0 {
        lemma_unbounded_config_kept(c, (k - 1) as nat);
    }
}

/// What one decoded inbound frame asks the session driver to do.
#[derive(Debug, Clone, Copy, PartialEq, Eq, Structural)]
pub enum Dispatch {
    /// Open a connection to a local port for the runner.
    Connect { client_id: u32, proto: Proto, port: u16 },
    /// Relay the frame's payload to a live connection.
    Data { client_id: u32, proto: Proto },
    /// Tear down a connection.
    Close { client_id: u32 },
    /// Answer an application-level keepalive.
    Ping { client_id: u32 },
    /// A client-originated type arrived from the runner: log, act on nothing.
    Unexpected { msg_type: MsgType },
    /// The frame did not decode: skip it, the session continues.
    Malformed { error: ProtocolError },
}

/// The dispatch a frame's bytes ask for.
pub open spec fn spec_classify(s: Seq<u8>) -> Dispatch {
    match spec_parse(s) {
        Err(e) => Dispatch::Malformed { error: e },
        Ok(h) => match h.msg_type {
            MsgType::Connect => Dispatch::Connect {
                client_id: h.client_id,
                proto: h.proto,
                port: h.port,
            },
            MsgType::Data => Dispatch::Data { client_id: h.client_id, proto: h.proto },
            MsgType::Close => Dispatch::Close { client_id: h.client_id },
            MsgType::Ping => Dispatch::Ping { client_id: h.client_id },
            _ => Dispatch::Unexpected { msg_type: h.msg_type },
        },
    }
}

/// Decode one binary frame and say what it asks for. A decode failure is
/// recoverable: the caller skips the frame and the session continues.
pub fn classify_frame(data: &[u8]) -> (d: Dispatch)
    ensures
        d == spec_classify(data@),
{
    match Header::parse(data) {
        Err(e) => Dispatch::Malformed { error: e },
        Ok(h) => match h.msg_type {
            MsgType::Connect => Dispatch::Connect {
                client_id: h.client_id,
                proto: h.proto,
                port: h.port,
            },
            MsgType::Data => Dispatch::Data { client_id: h.client_id, proto: h.proto },
            MsgType::Close => Dispatch::Close { client_id: h.client_id },
            MsgType::Ping => Dispatch::Ping { client_id: h.client_id },
            MsgType::Connected | MsgType::Error | MsgType::Pong => Dispatch::Unexpected {
                msg_type: h.msg_type,
            },
        },
    }
}

/// One event received on the outer transport.
pub enum TransportEvent {
    /// A binary frame: one tunnel protocol message.
    Binary { data: Vec<u8> },
    /// A text frame: unexpected, ignored.
    Text,
    /// A transport-level keepalive ping with its payload.
    Ping { data: Vec<u8> },
    /// A transport-level keepalive pong.
    Pong,
    /// The transport was closed by the peer.
    Closed,
    /// The transport failed.
    Failed,
    /// A raw frame, normally never received: ignored.
    Raw,
}

/// What the session loop does with one transport event.
pub enum SessionStep {
    /// Dispatch a decoded protocol frame; the frame's bytes ride along for
    /// the payload region.
    HandleFrame { dispatch: Dispatch, data: Vec<u8> },
    /// Echo a transport-level pong carrying the ping's payload.
    ReplyPong { data: Vec<u8> },
    /// Nothing to do; keep reading.
    Continue,
    /// The session is over: tear down every connection, then return.
    End,
}

/// The step each transport event calls for: binary frames are decoded and
/// dispatched, a transport ping is answered with a transport pong carrying
/// the same payload, text, pong and raw frames are ignored, and a close or
/// failure ends the session.
pub open spec fn spec_session_step(event: TransportEvent) -> SessionStep {
    match event {
        TransportEvent::Binary { data } => SessionStep::HandleFrame {
            dispatch: spec_classify(data@),
            data,
        },
        TransportEvent::Text => SessionStep::Continue,
        TransportEvent::Ping { data } => SessionStep::ReplyPong { data },
        TransportEvent::Pong => SessionStep::Continue,
        TransportEvent::Closed => SessionStep::End,
        TransportEvent::Failed => SessionStep::End,
        TransportEvent::Raw => SessionStep::Continue,
    }
}

/// Decide the session loop's reaction to one transport event.
pub fn session_step(event: TransportEvent) -> (r: SessionStep)
    ensures
        r == spec_session_step(event),
{
    match event {
        TransportEvent::Binary { data } => {
            let dispatch = classify_frame(data.as_slice());
            SessionStep::HandleFrame { dispatch, data }
        },
        TransportEvent::Text => SessionStep::Continue,
        TransportEvent::Ping { data } => SessionStep::ReplyPong { data },
        TransportEvent::Pong => SessionStep::Continue,
        TransportEvent::Closed => SessionStep::End,
        TransportEvent::Failed => SessionStep::End,
        TransportEvent::Raw => SessionStep::Continue,
    }
}

} // verus!
