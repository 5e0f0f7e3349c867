//! What can go wrong on the MQTT side.

use crate::text::{chars_of, string_of};
use vstd::prelude::*;

verus! {

/// The broker's answer to a connection request.
#[derive(Clone, Copy, PartialEq, Eq, Structural, Debug)]
pub enum ConnectReturnCode {
    Success,
    RefusedProtocolVersion,
    BadClientId,
    ServiceUnavailable,
    BadUserNamePassword,
    NotAuthorized,
}

/// The broker's answer to one subscription of a request.
#[derive(Clone, Copy, PartialEq, Eq, Structural, Debug)]
pub enum SubscribeReasonCode {
    /// Granted, with the quality of service as a number from 0 to 2.
    Success(u8),
    Failure,
}

/// An MQTT related error.
#[derive(Debug)]
pub enum MqttError {
    InvalidTopic { name: String },
    InvalidFilter { pattern: String },
    InvalidSessionConfig,
    /// The private key was refused; the text says why.
    InvalidPrivateKey(String),
    /// The client failed; the text says how.
    ClientError(String),
    /// The connection failed; the text says how.
    ConnectionError(String),
    ConnectionRejected(ConnectReturnCode),
    SubscriptionFailure,
    /// A payload is not UTF-8: the start of what could be read of it, and the
    /// number of bytes that could.
    InvalidUtf8Payload { input_excerpt: String, valid_up_to: usize },
    ReadOnClosedConnection,
    SendOnClosedConnection,
    /// No TLS configuration could be made; the text says why.
    TlsConfig(String),
}

/// The number of characters kept of a payload that could not be read.
pub const EXCERPT_LEN: usize = 80;

/// The characters that Unicode counts as white space.
pub open spec fn is_whitespace(c: char) -> bool {
    let n = c as u32;
    ||| 0x09 <= n <= 0x0D
    ||| n == 0x20
    ||| n == 0x85
    ||| n == 0xA0
    ||| n == 0x1680
    ||| 0x2000 <= n <= 0x200A
    ||| n == 0x2028
    ||| n == 0x2029
    ||| n == 0x202F
    ||| n == 0x205F
    ||| n == 0x3000
}

/// The characters of `input` that are no white space, in their order.
pub open spec fn without_whitespace(input: Seq<char>) -> Seq<char> {
    input.filter(|c: char| !is_whitespace(c))
}

/// The first `len` characters of `input` that are no white space, or all of
/// them if there are fewer.
pub open spec fn prefix_without_whitespace(input: Seq<char>, len: nat) -> Seq<char> {
    let kept = without_whitespace(input);
    if kept.len() <= len {
        kept
    } else {
        kept.take(len as int)
    }
}

fn whitespace(c: char) -> (r: bool)
    ensures
        r == is_whitespace(c),
{
    let n: u32 = c as u32;
    (0x09 <= n && n <= 0x0D) || n == 0x20 || n == 0x85 || n == 0xA0 || n == 0x1680 || (0x2000 <= n
        && n <= 0x200A) || n == 0x2028 || n == 0x2029 || n == 0x202F || n == 0x205F || n == 0x3000
}

impl MqttError {
    /// The error that a refused connection stands for; none where the broker
    /// accepted.
    pub fn maybe_connection_error(code: ConnectReturnCode) -> (r: Option<MqttError>)
        ensures
            code == ConnectReturnCode::Success ==> r is None,
            code != ConnectReturnCode::Success ==> (r matches Some(
                MqttError::ConnectionRejected(c),
            ) && c == code),
    {
        match code {
            ConnectReturnCode::Success => None,
            err => Some(MqttError::ConnectionRejected(err)),
        }
    }

    /// The error that the broker's answer to a subscription request stands
    /// for: a failure if one of the subscriptions failed.
    pub fn maybe_subscription_error(return_codes: &Vec<SubscribeReasonCode>) -> (r: Option<
        MqttError,
    >)
        ensures
            return_codes@.contains(SubscribeReasonCode::Failure) ==> r matches Some(
                MqttError::SubscriptionFailure,
            ),
            !return_codes@.contains(SubscribeReasonCode::Failure) ==> r is None,
    {
        let mut i: usize = 0;
        while i < return_codes.len()
            invariant
                i <= return_codes.len(),
                forall|j: int| 0 <= j < i ==> return_codes@[j] != SubscribeReasonCode::Failure,
            decreases return_codes.len() - i,
        {
            match return_codes[i] {
                SubscribeReasonCode::Failure => {
                    return Some(MqttError::SubscriptionFailure);
                },
                _ => {},
            }
            i += 1;
        }
        None
    }

    /// The error for a payload that is not UTF-8, given the text of the part
    /// that could be read and that part's length in bytes. It keeps the first
    /// `EXCERPT_LEN` characters of that text that are no white space.
    pub fn new_invalid_utf8_payload(valid_part: &str, valid_up_to: usize) -> (e: MqttError)
        ensures
            e matches MqttError::InvalidUtf8Payload { input_excerpt, valid_up_to: n }
                && input_excerpt@ == prefix_without_whitespace(valid_part@, EXCERPT_LEN as nat)
                && n == valid_up_to,
    {
        MqttError::InvalidUtf8Payload {
            input_excerpt: MqttError::input_prefix(valid_part, EXCERPT_LEN),
            valid_up_to,
        }
    }

    /// The first `len` characters of `input` that are no white space.
    pub fn input_prefix(input: &str, len: usize) -> (prefix: String)
        ensures
            prefix@ == prefix_without_whitespace(input@, len as nat),
    {
        let chars = chars_of(input);
        let mut kept: Vec<char> = Vec::new();
        let mut i: usize = 0;
        assert(chars@.take(0) =~= Seq::<char>::empty());
        while i < chars.len() && kept.len() < len
            invariant
                i <= chars.len(),
                kept@.len() <= len,
                kept@ == without_whitespace(chars@.take(i as int)),
            decreases chars.len() - i,
        {
            let c = chars[i];
            proof {
                assert(chars@.take(i + 1).drop_last() =~= chars@.take(i as int));
                lemma_filter_step(chars@.take(i + 1));
            }
            if !whitespace(c) {
                kept.push(c);
            }
            i += 1;
        }
        proof {
            lemma_filter_prefix(chars@, i as int);
            if i == chars.len() {
                assert(chars@.take(i as int) =~= chars@);
            } else {
                assert(kept@ =~= without_whitespace(chars@).take(len as int));
            }
        }
        string_of(&kept)
    }
}

proof fn lemma_filter_step(s: Seq<char>)
    requires
        s.len() > 0,
    ensures
        without_whitespace(s) == if is_whitespace(s.last()) {
            without_whitespace(s.drop_last())
        } else {
            without_whitespace(s.drop_last()).push(s.last())
        },
{
    reveal(Seq::filter);
}

proof fn lemma_filter_prefix(s: Seq<char>, i: int)
    requires
        0 <= i <= s.len(),
    ensures
        without_whitespace(s.take(i)).len() <= without_whitespace(s).len(),
        without_whitespace(s.take(i)) == without_whitespace(s).take(
            without_whitespace(s.take(i)).len() as int,
        ),
    decreases s.len() - i,
{
    if i == s.len() {
        assert(s.take(i) =~= s);
    } else {
        lemma_filter_prefix(s, i + 1);
        assert(s.take(i + 1).drop_last() =~= s.take(i));
        lemma_filter_step(s.take(i + 1));
    }
}

} // verus!
