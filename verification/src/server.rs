//! Start-up configuration.
//!
//! The service is configured by two texts from its environment: `PORT`, the
//! port to listen on, and `TOKENS`, the comma-separated credentials. It
//! listens on the loopback address only. A port that cannot be read is
//! fatal: the service does not start.

use vstd::prelude::*;
use crate::text::chars_of;
use crate::tokens::{configured_tokens, get_tokens, TokenSet};

verus! {

/// The port the service listens on when none is configured.
pub const DEFAULT_PORT: &'static str = "8080";

/// Why the service cannot start.
#[derive(Clone, Copy, Debug, PartialEq, Eq, Structural)]
pub enum ConfigError {
    /// The configured port is not a decimal number from 0 to 65535.
    InvalidPort,
}

/// What the service starts with.
#[derive(Debug)]
pub struct ServerConfig {
    /// The address to bind: always the loopback address `127.0.0.1`.
    pub host: [u8; 4],
    /// The port to bind.
    pub port: u16,
    /// The tokens that open the upload route.
    pub tokens: TokenSet,
}

/// A decimal digit.
pub open spec fn is_digit(c: char) -> bool {
    '0' <= c && c <= '9'
}

/// The number a decimal digit stands for.
pub open spec fn digit_value(c: char) -> nat {
    (c as u8 - 48) as nat
}

/// The number a text of decimal digits stands for; leading zeros count for
/// nothing.
pub open spec fn decimal(digits: Seq<char>) -> nat
    decreases digits.len(),
{
    if digits.len() == 0 {
        0
    } else {
        decimal(digits.drop_last()) * 10 + digit_value(digits.last())
    }
}

/// A text without the plus sign that may lead it.
pub open spec fn without_sign(text: Seq<char>) -> Seq<char> {
    if text.len() > 0 && text[0] == '+' {
        text.drop_first()
    } else {
        text
    }
}

/// The port a text configures: the text is an optional `+` and then one or
/// more decimal digits, and nothing else, and the number is at most 65535.
/// Any other text, the empty one and one with blanks included, configures
/// no port.
pub open spec fn port_of(text: Seq<char>) -> Option<u16> {
    let digits = without_sign(text);
    if digits.len() > 0 && (forall|i: int| 0 <= i < digits.len() ==> is_digit(#[trigger] digits[i]))
        && decimal(digits) <= u16::MAX {
        Some(decimal(digits) as u16)
    } else {
        None
    }
}

/// Digits appended to a number never make it smaller.
proof fn lemma_decimal_grows(digits: Seq<char>, n: int)
    requires
        0 <= n <= digits.len(),
    ensures
        decimal(digits.take(n)) <= decimal(digits),
    decreases digits.len(),
{
    if n == digits.len() {
        assert(digits.take(n) =~= digits);
    } else {
        let front = digits.drop_last();
        assert(front.take(n) =~= digits.take(n));
        lemma_decimal_grows(front, n);
    }
}

/// Reads a port number.
pub fn parse_port(text: &str) -> (r: Result<u16, ConfigError>)
    ensures
        match r {
            Ok(port) => port_of(text@) == Some(port),
            Err(e) => port_of(text@) is None && e == ConfigError::InvalidPort,
        },
{
    let chars = chars_of(text);
    let n = chars.len();
    let first: usize = if n > 0 && chars[0] == '+' {
        1
    } else {
        0
    };
    let ghost digits = without_sign(text@);
    if first == n {
        return Err(ConfigError::InvalidPort);
    }
    let mut value: u32 = 0;
    let mut i: usize = first;
    while i < n
        invariant
            first <= i <= n,
            n == chars.len(),
            chars@ == text@,
            digits == chars@.skip(first as int),
            digits == without_sign(text@),
            forall|k: int| 0 <= k < i - first ==> is_digit(#[trigger] digits[k]),
            value == decimal(digits.take(i - first)),
            value <= u16::MAX,
        decreases n - i,
    {
        let c = chars[i];
        if !('0' <= c && c <= '9') {
            assert(!is_digit(digits[i - first]));
            return Err(ConfigError::InvalidPort);
        }
        let d: u32 = (c as u8 - 48) as u32;
        assert(digits.take(i + 1 - first).drop_last() =~= digits.take(i - first));
        value = value * 10 + d;
        if value > 65535 {
            proof {
                lemma_decimal_grows(digits, i + 1 - first);
            }
            return Err(ConfigError::InvalidPort);
        }
        i += 1;
    }
    assert(digits.take(i - first) =~= digits);
    Ok(value as u16)
}

/// Puts the configuration together from the values of `PORT` and `TOKENS`,
/// each `None` if the variable is not set. A missing port is `8080`; missing
/// tokens are the empty configuration, which admits nobody.
pub fn upload_server(port: Option<&str>, tokens: Option<&str>) -> (r: Result<
    ServerConfig,
    ConfigError,
>)
    ensures
        match r {
            Ok(config) => {
                &&& config.host@ == seq![127u8, 0u8, 0u8, 1u8]
                &&& port_of(
                    match port {
                        Some(text) => text@,
                        None => DEFAULT_PORT@,
                    },
                ) == Some(config.port)
                &&& config.tokens@ == configured_tokens(
                    match tokens {
                        Some(text) => text@,
                        None => Seq::empty(),
                    },
                )
            },
            Err(e) => {
                &&& e == ConfigError::InvalidPort
                &&& port matches Some(text)
                &&& port_of(text@) is None
            },
        },
        port is None ==> r is Ok && r->Ok_0.port == 8080,
{
    let port_text = match port {
        Some(text) => text,
        None => DEFAULT_PORT,
    };
    proof {
        lemma_default_port();
    }
    let number = match parse_port(port_text) {
        Ok(number) => number,
        Err(e) => {
            return Err(e);
        },
    };
    let token_text = match tokens {
        Some(text) => text,
        None => "",
    };
    proof {
        reveal_strlit("");
    }
    Ok(ServerConfig { host: [127, 0, 0, 1], port: number, tokens: get_tokens(token_text) })
}

/// The default port is 8080.
pub proof fn lemma_default_port()
    ensures
        port_of(DEFAULT_PORT@) == Some(8080u16),
{
    reveal_strlit("8080");
    let d3 = DEFAULT_PORT@.drop_last();
    let d2 = d3.drop_last();
    let d1 = d2.drop_last();
    assert(decimal(d1.drop_last()) == 0);
    assert(decimal(d1) == 8);
    assert(decimal(d2) == 80);
    assert(decimal(d3) == 808);
}

} // verus!
