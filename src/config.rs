//! Startup settings: the relay buffer size and the listen address text.

use vstd::prelude::*;

verus! {

/// Buffer size used for each relay direction when none is configured.
pub const DEFAULT_BUFFER_SIZE: usize = 524288;

/// Why a startup setting was rejected.
#[derive(Debug, Clone, Copy, PartialEq, Eq, Structural)]
pub enum ConfigError {
    /// The buffer size is not a decimal number that fits in `usize`.
    InvalidBufferSize,
    /// The buffer size is zero, which would leave nothing to read into.
    ZeroBufferSize,
}

/// Value of an ASCII decimal digit.
pub open spec fn digit_value(c: char) -> nat {
    (c as u32 - '0' as u32) as nat
}

pub open spec fn is_digit(c: char) -> bool {
    '0' <= c && c <= '9'
}

/// Value of a string of decimal digits, most significant first.
pub open spec fn decimal_value(s: Seq<char>) -> nat
    decreases s.len(),
{
    if s.len() == 0 {
        0
    } else {
        decimal_value(s.drop_last()) * 10 + digit_value(s.last())
    }
}

/// The digits of an unsigned decimal literal: the text without an optional
/// leading `+`.
pub open spec fn unsigned_digits(s: Seq<char>) -> Seq<char> {
    if s.len() > 0 && s[0] == '+' {
        s.drop_first()
    } else {
        s
    }
}

/// The number written by `s` as an unsigned decimal literal: an optional `+`
/// followed by one or more ASCII digits, with a value that fits in `usize`.
pub open spec fn parsed_usize(s: Seq<char>) -> Option<nat> {
    let d = unsigned_digits(s);
    if d.len() > 0 && (forall|i: int| 0 <= i < d.len() ==> is_digit(#[trigger] d[i]))
        && decimal_value(d) <= usize::MAX {
        Some(decimal_value(d))
    } else {
        None
    }
}

/// Relies on `str::parse::<usize>` (`usize::from_str`): an optional `+` then
/// decimal digits only; anything else, or a value above `usize::MAX`, is an error.
#[verifier::external_body]
fn parse_usize(s: &str) -> (r: Option<usize>)
    ensures
        match parsed_usize(s@) {
            Some(v) => r == Some(v as usize),
            None => r is None,
        },
{
    s.parse::<usize>().ok()
}

/// The buffer size that a startup argument asks for (`None`: no argument).
pub open spec fn buffer_size_of(arg: Option<Seq<char>>) -> Result<usize, ConfigError> {
    match arg {
        None => Ok(DEFAULT_BUFFER_SIZE),
        Some(s) => match parsed_usize(s) {
            None => Err(ConfigError::InvalidBufferSize),
            Some(v) => if v == 0 {
                Err(ConfigError::ZeroBufferSize)
            } else {
                Ok(v as usize)
            },
        },
    }
}

pub open spec fn opt_view(arg: Option<&str>) -> Option<Seq<char>> {
    match arg {
        None => None,
        Some(s) => Some(s@),
    }
}

/// Reads the buffer size setting: the default when it is absent, its decimal
/// value when that is positive, and an error otherwise.
pub fn buffer_size_setting(arg: Option<&str>) -> (r: Result<usize, ConfigError>)
    ensures
        r == buffer_size_of(opt_view(arg)),
{
    match arg {
        None => Ok(DEFAULT_BUFFER_SIZE),
        Some(s) => match parse_usize(s) {
            None => Err(ConfigError::InvalidBufferSize),
            Some(v) => if v == 0 {
                Err(ConfigError::ZeroBufferSize)
            } else {
                Ok(v)
            },
        },
    }
}

/// Host part put in front of a listen setting that names only a port.
pub open spec fn any_host_prefix() -> Seq<char> {
    seq!['0', '.', '0', '.', '0', '.', '0', ':']
}

/// The listen address text: unchanged when it holds a `:`, else a port on
/// every interface.
pub open spec fn listen_address_of(s: Seq<char>) -> Seq<char> {
    if s.contains(':') {
        s
    } else {
        any_host_prefix() + s
    }
}

/// Completes a listen setting: a bare port is bound on all interfaces.
pub fn listen_address_text(s: &str) -> (r: String)
    ensures
        r@ == listen_address_of(s@),
{
    let mut has_colon = false;
    for c in iter: s.chars()
        invariant
            iter.seq() == s@,
            has_colon <==> exists|j: int| 0 <= j < iter.index() && s@[j] == ':',
    {
        if c == ':' {
            has_colon = true;
        }
    }
    proof {
        if has_colon {
            let j = choose|j: int| 0 <= j < s@.len() && s@[j] == ':';
            assert(s@.contains(':'));
        }
        reveal_strlit("0.0.0.0:");
        assert("0.0.0.0:"@ =~= any_host_prefix());
    }
    if has_colon {
        String::from_str(s)
    } else {
        let r = String::from_str("0.0.0.0:");
        r.concat(s)
    }
}

} // verus!
