//! Limits of a session and the policy for reconnecting.

use vstd::prelude::*;
use vstd::string::*;

use crate::domain::nonzero::NonZeroU32;
use crate::protocol::clipboard::MAX_CLIPBOARD_FRAME_BYTES;
use crate::protocol::codec::DEFAULT_MAX_FRAME_BYTES;
use crate::time::Duration;

verus! {

pub const DEFAULT_MAX_BIDI_STREAMS: u32 = 9;

pub const STREAM_RECEIVE_WINDOW: u32 = 2 * 1024 * 1024;

pub const CONNECTION_RECEIVE_WINDOW: u32 = 32 * 1024 * 1024;

/// The limits of one session.
#[derive(Clone, Copy, Debug)]
pub struct SessionLimits {
    handshake_timeout: Duration,
    operation_timeout: Duration,
    idle_timeout: Duration,
    keep_alive_interval: Duration,
    maximum_control_frame_bytes: usize,
    maximum_clipboard_frame_bytes: usize,
    maximum_bidirectional_streams: NonZeroU32,
}

pub ghost struct LimitsView {
    pub handshake_timeout: u128,
    pub operation_timeout: u128,
    pub idle_timeout: u128,
    pub keep_alive_interval: u128,
    pub maximum_control_frame_bytes: usize,
    pub maximum_clipboard_frame_bytes: usize,
    pub maximum_bidirectional_streams: u32,
}

impl View for SessionLimits {
    type V = LimitsView;

    closed spec fn view(&self) -> LimitsView {
        LimitsView {
            handshake_timeout: self.handshake_timeout@,
            operation_timeout: self.operation_timeout@,
            idle_timeout: self.idle_timeout@,
            keep_alive_interval: self.keep_alive_interval@,
            maximum_control_frame_bytes: self.maximum_control_frame_bytes,
            maximum_clipboard_frame_bytes: self.maximum_clipboard_frame_bytes,
            maximum_bidirectional_streams: self.maximum_bidirectional_streams@,
        }
    }
}

impl SessionLimits {
    #[verifier::type_invariant]
    pub open spec fn has_frame_limits(self) -> bool {
        0 < self@.maximum_control_frame_bytes <= u32::MAX && 0
            < self@.maximum_clipboard_frame_bytes
    }

    pub fn handshake_timeout(&self) -> (span: Duration)
        ensures
            span@ == self@.handshake_timeout,
    {
        self.handshake_timeout
    }

    pub fn operation_timeout(&self) -> (span: Duration)
        ensures
            span@ == self@.operation_timeout,
    {
        self.operation_timeout
    }

    pub fn idle_timeout(&self) -> (span: Duration)
        ensures
            span@ == self@.idle_timeout,
    {
        self.idle_timeout
    }

    pub fn keep_alive_interval(&self) -> (span: Duration)
        ensures
            span@ == self@.keep_alive_interval,
    {
        self.keep_alive_interval
    }

    pub fn maximum_control_frame_bytes(&self) -> (count: usize)
        ensures
            count == self@.maximum_control_frame_bytes,
            0 < count <= u32::MAX,
    {
        proof {
            use_type_invariant(self);
        }
        self.maximum_control_frame_bytes
    }

    pub fn maximum_clipboard_frame_bytes(&self) -> (count: usize)
        ensures
            count == self@.maximum_clipboard_frame_bytes,
            count > 0,
    {
        proof {
            use_type_invariant(self);
        }
        self.maximum_clipboard_frame_bytes
    }

    pub fn maximum_bidirectional_streams(&self) -> (count: u32)
        ensures
            count == self@.maximum_bidirectional_streams,
            count > 0,
    {
        self.maximum_bidirectional_streams.get()
    }
}

impl Default for SessionLimits {
    fn default() -> (limits: SessionLimits)
        ensures
            limits@ == (LimitsView {
                handshake_timeout: 5_000_000_000,
                operation_timeout: 10_000_000_000,
                idle_timeout: 30_000_000_000,
                keep_alive_interval: 10_000_000_000,
                maximum_control_frame_bytes: DEFAULT_MAX_FRAME_BYTES,
                maximum_clipboard_frame_bytes: MAX_CLIPBOARD_FRAME_BYTES,
                maximum_bidirectional_streams: DEFAULT_MAX_BIDI_STREAMS,
            }),
    {
        let maximum_bidirectional_streams = match NonZeroU32::new(DEFAULT_MAX_BIDI_STREAMS) {
            Some(streams) => streams,
            None => NonZeroU32::min_value(),
        };
        SessionLimits {
            handshake_timeout: Duration::from_secs(5),
            operation_timeout: Duration::from_secs(10),
            idle_timeout: Duration::from_secs(30),
            keep_alive_interval: Duration::from_secs(10),
            maximum_control_frame_bytes: DEFAULT_MAX_FRAME_BYTES,
            maximum_clipboard_frame_bytes: MAX_CLIPBOARD_FRAME_BYTES,
            maximum_bidirectional_streams,
        }
    }
}

/// How often and after which delays a lost connection is tried again.
#[derive(Clone, Copy, Debug)]
pub struct ReconnectPolicy {
    maximum_attempts: NonZeroU32,
    initial_delay: Duration,
    maximum_delay: Duration,
}

pub ghost struct PolicyView {
    pub maximum_attempts: u32,
    pub initial_delay: u128,
    pub maximum_delay: u128,
}

impl View for ReconnectPolicy {
    type V = PolicyView;

    closed spec fn view(&self) -> PolicyView {
        PolicyView {
            maximum_attempts: self.maximum_attempts@,
            initial_delay: self.initial_delay@,
            maximum_delay: self.maximum_delay@,
        }
    }
}

impl PolicyView {
    pub open spec fn is_valid(self) -> bool {
        0 < self.initial_delay <= self.maximum_delay <= crate::time::MAX_NANOS
    }

    /// The delay before an attempt: the initial delay, doubled for each attempt
    /// before it, up to the maximum.
    pub open spec fn delay(self, attempt: u32) -> int {
        let doublings = if attempt > 31 {
            31nat
        } else {
            attempt as nat
        };
        let doubled = self.initial_delay * vstd::arithmetic::power2::pow2(doublings);
        if doubled > self.maximum_delay {
            self.maximum_delay as int
        } else {
            doubled
        }
    }
}

impl ReconnectPolicy {
    #[verifier::type_invariant]
    pub open spec fn has_ordered_delays(self) -> bool {
        self@.is_valid()
    }

    pub fn new(
        maximum_attempts: NonZeroU32,
        initial_delay: Duration,
        maximum_delay: Duration,
    ) -> (result: Result<ReconnectPolicy, LimitsError>)
        ensures
            match result {
                Ok(policy) => 0 < initial_delay@ <= maximum_delay@ && policy@ == (PolicyView {
                    maximum_attempts: maximum_attempts@,
                    initial_delay: initial_delay@,
                    maximum_delay: maximum_delay@,
                }),
                Err(error) => !(0 < initial_delay@ <= maximum_delay@) && error
                    == LimitsError::InvalidReconnectDelay,
            },
    {
        if initial_delay.is_zero() || maximum_delay.as_nanos() < initial_delay.as_nanos() {
            return Err(LimitsError::InvalidReconnectDelay);
        }
        Ok(ReconnectPolicy { maximum_attempts, initial_delay, maximum_delay })
    }

    /// The delay before an attempt, counted from 0, while there are attempts
    /// left.
    pub fn delay_before(&self, attempt: u32) -> (delay: Option<Duration>)
        ensures
            match delay {
                Some(delay) => attempt < self@.maximum_attempts && delay@ == self@.delay(attempt),
                None => attempt >= self@.maximum_attempts,
            },
            self@.is_valid(),
    {
        proof {
            use_type_invariant(self);
            use_type_invariant(&self.maximum_delay);
        }
        if attempt >= self.maximum_attempts.get() {
            return None;
        }
        let doublings: u32 = if attempt > 31 {
            31
        } else {
            attempt
        };
        let mut multiplier: u32 = 1;
        let mut doubled: u32 = 0;
        proof {
            vstd::arithmetic::power2::lemma2_to64();
        }
        while doubled < doublings
            invariant
                doubled <= doublings <= 31,
                multiplier == vstd::arithmetic::power2::pow2(doubled as nat),
                multiplier <= 0x8000_0000,
            decreases doublings - doubled,
        {
            proof {
                vstd::arithmetic::power2::lemma2_to64();
                vstd::arithmetic::power2::lemma_pow2_unfold((doubled + 1) as nat);
                if doubled < 30 {
                    vstd::arithmetic::power2::lemma_pow2_strictly_increases(doubled as nat, 30);
                }
            }
            multiplier = multiplier * 2;
            doubled += 1;
        }
        Some(self.initial_delay.saturating_mul(multiplier).min(self.maximum_delay))
    }
}

impl Default for ReconnectPolicy {
    fn default() -> (policy: ReconnectPolicy)
        ensures
            policy@ == (PolicyView {
                maximum_attempts: 8,
                initial_delay: 250_000_000,
                maximum_delay: 15_000_000_000,
            }),
    {
        let maximum_attempts = match NonZeroU32::new(8) {
            Some(attempts) => attempts,
            None => NonZeroU32::min_value(),
        };
        ReconnectPolicy {
            maximum_attempts,
            initial_delay: Duration::from_millis(250),
            maximum_delay: Duration::from_secs(15),
        }
    }
}

/// Why limits are refused.
#[derive(Clone, Copy, Debug, PartialEq, Eq, Structural)]
pub enum LimitsError {
    IdleTimeoutTooLarge,
    InvalidReconnectDelay,
    ControlFrameTooLarge,
}

/// The delays start with the initial one, never get shorter and never exceed
/// the maximum.
pub proof fn law_reconnect_delays_are_bounded(policy: PolicyView, attempt: u32)
    requires
        policy.is_valid(),
    ensures
        policy.delay(0) == policy.initial_delay,
        policy.initial_delay <= policy.delay(attempt) <= policy.maximum_delay,
        attempt < u32::MAX ==> policy.delay(attempt) <= policy.delay((attempt + 1) as u32),
{
    vstd::arithmetic::power2::lemma2_to64();
    let now = if attempt > 31 {
        31nat
    } else {
        attempt as nat
    };
    let a = vstd::arithmetic::power2::pow2(now);
    let next = if attempt + 1 > 31 {
        31nat
    } else {
        (attempt + 1) as nat
    };
    let b = vstd::arithmetic::power2::pow2(next);
    vstd::arithmetic::power2::lemma_pow2_pos(now);
    if now < next {
        vstd::arithmetic::power2::lemma_pow2_strictly_increases(now, next);
    }
    let initial = policy.initial_delay as int;
    assert(vstd::arithmetic::power2::pow2(0nat) == 1);
    assert(initial * 1 == initial);
    assert(initial <= initial * a <= initial * b) by (nonlinear_arith)
        requires
            initial > 0,
            1 <= a <= b,
    ;
}

impl LimitsError {
    /// The error in words.
    pub open spec fn text(self) -> Seq<char> {
        match self {
            LimitsError::IdleTimeoutTooLarge => "the QUIC idle timeout is too large"@,
            LimitsError::InvalidReconnectDelay => {
                "reconnect delays must be non-zero and ordered from initial to maximum"@
            },
            LimitsError::ControlFrameTooLarge => {
                "control frame size exceeds the protocol hard limit of 16777216 bytes"@
            },
        }
    }

    /// The error in words.
    pub fn message(&self) -> (message: String)
        ensures
            message@ == self.text(),
    {
        let mut message = String::new();
        match self {
            LimitsError::IdleTimeoutTooLarge => {
                message.append("the QUIC idle timeout is too large");
            },
            LimitsError::InvalidReconnectDelay => {
                message.append(
                    "reconnect delays must be non-zero and ordered from initial to maximum",
                );
            },
            LimitsError::ControlFrameTooLarge => {
                message.append(
                    "control frame size exceeds the protocol hard limit of 16777216 bytes",
                );
            },
        }
        assert(message@ =~= self.text());
        message
    }
}

} // verus!
