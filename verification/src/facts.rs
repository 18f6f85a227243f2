//! Fixed identity facts and the simple lookups: user name, real name,
//! desktop environment, word width, and the hostname check.

use vstd::prelude::*;

verus! {

/// The failure conditions the identity lookups can report. Each stands for
/// an expected, named degraded condition, never a defect: the page exposes
/// no domain, no agent string exists at all, or the agent string lacks the
/// delimiters the parser needs.
#[derive(Clone, Copy, Debug, PartialEq, Eq, Structural)]
pub enum Error {
    /// A required value (the document domain) is absent or empty.
    NotFound,
    /// The browser context withholds the value entirely (no agent string).
    PermissionDenied,
    /// The value exists but is not in the expected shape.
    InvalidData,
}

/// The coarse platform family parsed from the user-agent string. `Unknown`
/// carries the raw unrecognized parenthetical verbatim: transparency for
/// families the parser does not classify, not an error.
#[derive(Clone, Debug, PartialEq, Eq)]
pub enum Platform {
    Windows,
    Linux,
    MacOS,
    Unknown(String),
}

/// The execution target's word width. Derived from the pointer width of the
/// running program, never from text.
#[derive(Clone, Copy, Debug, PartialEq, Eq, Structural)]
pub enum Arch {
    Wasm32,
    Wasm64,
}

/// The desktop-shell abstraction, which has a single constant value inside
/// a browser.
#[derive(Clone, Copy, Debug, PartialEq, Eq, Structural)]
pub enum DesktopEnv {
    WebBrowser,
}

impl Error {
    /// The message text carried by this condition.
    pub open spec fn spec_message(self) -> Seq<char> {
        match self {
            Error::NotFound => "Domain missing"@,
            Error::PermissionDenied => "permission denied"@,
            Error::InvalidData => "Parsing failed"@,
        }
    }

    /// A human-readable description of the condition.
    pub fn message(&self) -> (r: &'static str)
        ensures
            r@ == self.spec_message(),
    {
        match self {
            Error::NotFound => "Domain missing",
            Error::PermissionDenied => "permission denied",
            Error::InvalidData => "Parsing failed",
        }
    }
}

/// The browser sandbox cannot expose a real OS user name; the fixed
/// anonymous label is the documented answer, not a failure.
pub fn username() -> (r: Result<String, Error>)
    ensures
        r matches Ok(s) && s@ == "anonymous"@,
{
    Ok(String::from_str("anonymous"))
}

/// As with `username`: a fixed label, since no real identity is reachable.
pub fn realname() -> (r: Result<String, Error>)
    ensures
        r matches Ok(s) && s@ == "Anonymous"@,
{
    Ok(String::from_str("Anonymous"))
}

/// Inside a browser the desktop shell is always the browser itself.
pub fn desktop_env() -> (r: DesktopEnv)
    ensures
        r == DesktopEnv::WebBrowser,
{
    DesktopEnv::WebBrowser
}

/// The word width of the running program, read from the target's pointer
/// size: 64-bit pointers mean a 64-bit target, anything else a 32-bit one.
pub fn arch() -> (r: Arch)
    ensures
        r == (if vstd::layout::size_of::<usize>() >= 8 {
            Arch::Wasm64
        } else {
            Arch::Wasm32
        }),
{
    if core::mem::size_of::<usize>() >= 8 {
        Arch::Wasm64
    } else {
        Arch::Wasm32
    }
}

/// The view of an optional browser-provided string: the absent case is an
/// absent sequence, never an empty one.
pub open spec fn opt_view(s: Option<String>) -> Option<Seq<char>> {
    match s {
        Some(t) => Some(t@),
        None => None,
    }
}

/// What `hostname` returns for each possible domain value: the domain text
/// unchanged when it is present and non-empty, and `NotFound` otherwise.
pub open spec fn spec_hostname(domain: Option<Seq<char>>) -> Result<Seq<char>, Error> {
    match domain {
        Some(d) => if d.len() > 0 {
            Ok(d)
        } else {
            Err(Error::NotFound)
        },
        None => Err(Error::NotFound),
    }
}

/// `r` is what the hostname lookup owes for `domain`: the same success or
/// failure, with the same text or error.
pub open spec fn hostname_matches(r: Result<String, Error>, domain: Option<Seq<char>>) -> bool {
    match (r, spec_hostname(domain)) {
        (Ok(s), Ok(d)) => s@ == d,
        (Err(e1), Err(e2)) => e1 == e2,
        _ => false,
    }
}

/// The hostname lookup is a pure function of the domain value: any two
/// results that meet its contract for the same input agree.
pub proof fn lemma_hostname_deterministic(
    domain: Option<Seq<char>>,
    r1: Result<String, Error>,
    r2: Result<String, Error>,
)
    requires
        hostname_matches(r1, domain),
        hostname_matches(r2, domain),
    ensures
        match (r1, r2) {
            (Ok(s1), Ok(s2)) => s1@ == s2@,
            (Err(e1), Err(e2)) => e1 == e2,
            _ => false,
        },
{
}

/// The host domain of the page, taken from the document location. An absent
/// or empty domain fails with `NotFound`; any other value passes through
/// unchanged, with no parsing beyond the emptiness check.
pub fn hostname(domain: Option<String>) -> (r: Result<String, Error>)
    ensures
        hostname_matches(r, opt_view(domain)),
{
    match domain {
        Some(d) => if d.as_str().unicode_len() > 0 {
            Ok(d)
        } else {
            Err(Error::NotFound)
        },
        None => Err(Error::NotFound),
    }
}

} // verus!
