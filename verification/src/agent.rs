//! The user-agent parser: browser name, distribution label and platform
//! family, each extracted from the single semi-structured string a browser
//! exposes about itself.
//!
//! Every extraction is a chain of find-or-fallback steps: each step either
//! advances on a located delimiter or short-circuits to a named fallback
//! value. Unrecognized families degrade to a verbatim or labelled fallback,
//! never to an error; the only failures are the two named conditions of the
//! distribution lookup.

use vstd::prelude::*;

use crate::facts::Error;
use crate::facts::Platform;
use crate::text;

verus! {

/// The agent text a lookup works on: the empty sequence stands in when the
/// browser context exposes no agent string at all.
pub open spec fn agent_view(agent: Option<&str>) -> Seq<char> {
    match agent {
        Some(a) => a@,
        None => Seq::empty(),
    }
}

/// The view of an optional raw string, keeping absence distinct from
/// emptiness (the distribution lookup treats the two differently).
pub open spec fn view_opt(agent: Option<&str>) -> Option<Seq<char>> {
    match agent {
        Some(a) => Some(a@),
        None => None,
    }
}

/// The platform parenthetical: the text between the first `(` and the first
/// `)`. Nothing if either delimiter is missing, and likewise if the first
/// `)` comes before the first `(`, which leaves no text between them.
pub open spec fn spec_parenthetical(s: Seq<char>) -> Option<Seq<char>> {
    match (text::find(s, "("@), text::find(s, ")"@)) {
        (Some(b), Some(e)) => if b + 1 <= e {
            Some(s.subrange(b + 1, e))
        } else {
            None
        },
        _ => None,
    }
}

/// The browser-name label: the tail of the agent string after its last
/// space, normalized by turning `/` into a space, then disambiguated,
/// because Chrome, Edge, Opera and GNOME Web all advertise a Safari
/// compatibility token. Chrome detection searches the whole original
/// string and takes priority; a Linux agent without a Chrome token is
/// GNOME Web; otherwise the Safari tail itself is reported. Off the Safari
/// branch, Edge's and Opera's own tokens are rewritten to their names.
pub open spec fn spec_devicename(agent: Seq<char>) -> Seq<char> {
    match text::rfind(agent, " "@) {
        None => "Unknown Browser"@,
        Some(sp) => {
            let derived = text::replace_all(agent.skip(sp + 1), "/"@, " "@);
            match text::rfind(derived, "Safari"@) {
                Some(sa) => spec_safari_name(agent, derived, sa),
                None => if text::contains(derived, "Edg "@) {
                    text::replace_all(derived, "Edg "@, "Edge "@)
                } else if text::contains(derived, "OPR "@) {
                    text::replace_all(derived, "OPR "@, "Opera "@)
                } else {
                    derived
                },
            }
        },
    }
}

/// The Safari disambiguation: a `Chrome/<version>` token anywhere in the
/// original string wins (cut at the next space, or the bare word when no
/// version follows); a Linux agent without one is GNOME Web; otherwise the
/// Safari-prefixed tail of the derived substring stands.
pub open spec fn spec_safari_name(agent: Seq<char>, derived: Seq<char>, sa: int) -> Seq<char> {
    match text::rfind(agent, "Chrome"@) {
        Some(c) => {
            let ctail = agent.skip(c);
            match text::find(ctail, " "@) {
                Some(e) => text::replace_all(ctail.take(e), "/"@, " "@),
                None => "Chrome"@,
            }
        },
        None => if text::contains(agent, "Linux"@) {
            "GNOME Web"@
        } else {
            text::replace_all(derived.skip(sa), "/"@, " "@)
        },
    }
}

/// The Windows distribution label: the version token between `NT ` and the
/// first `.` after the `NT` token, or plain "Windows" when either is
/// missing or no token lies between them.
pub open spec fn spec_windows_label(p: Seq<char>) -> Seq<char> {
    match text::find(p, "NT"@) {
        None => "Windows"@,
        Some(b) => {
            let rest = p.skip(b + 2);
            match text::find(rest, "."@) {
                None => "Windows"@,
                Some(e) => if 1 <= e {
                    "Windows "@ + rest.subrange(1, e)
                } else {
                    "Windows"@
                },
            }
        },
    }
}

/// What remains of a Linux parenthetical once any windowing-system token
/// has been dropped: a remainder that still begins with "Linux" names no
/// distribution, otherwise the text up to the next `;` is the name, and a
/// missing `;` leaves the distribution unknown.
pub open spec fn spec_linux_tail(q: Seq<char>) -> Seq<char> {
    if text::match_at(q, "Linux"@, 0) {
        "Unknown Linux"@
    } else {
        match text::find(q, ";"@) {
            None => "Unknown Linux"@,
            Some(e) => q.take(e),
        }
    }
}

/// The Linux distribution label. An `X11` or `Wayland` token is skipped by
/// dropping everything through the first `;` and one further character; a
/// `;` so close to the end that this would step past the text leaves an
/// empty remainder.
pub open spec fn spec_linux_label(p: Seq<char>) -> Seq<char> {
    if text::contains(p, "X11"@) || text::contains(p, "Wayland"@) {
        match text::find(p, ";"@) {
            None => "Unknown Linux"@,
            Some(b) => spec_linux_tail(
                if b + 2 <= p.len() {
                    p.skip(b + 2)
                } else {
                    Seq::empty()
                },
            ),
        }
    } else {
        spec_linux_tail(p)
    }
}

/// The macOS distribution label, taken from the `Mac OS X` token at `b` to
/// the next `;`; with no `;`, the remainder with version underscores turned
/// into dots.
pub open spec fn spec_mac_label(p: Seq<char>, b: int) -> Seq<char> {
    let rest = p.skip(b);
    match text::find(rest, ";"@) {
        Some(e) => rest.take(e),
        None => text::replace_all(rest, "_"@, "."@),
    }
}

/// The distribution label of a platform parenthetical: a Windows token is
/// reduced to a Windows version, a Linux token to a distribution name, a
/// macOS token to a version, and any unrecognized family passes through
/// verbatim.
pub open spec fn spec_distro_label(p: Seq<char>) -> Seq<char> {
    if text::contains(p, "Win32"@) || text::contains(p, "Win64"@) {
        spec_windows_label(p)
    } else if text::contains(p, "Linux"@) {
        spec_linux_label(p)
    } else {
        match text::find(p, "Mac OS X"@) {
            Some(b) => spec_mac_label(p, b),
            None => p,
        }
    }
}

/// What `distro` returns for each possible agent value: a missing agent
/// string is a permission failure, a missing parenthetical a data failure,
/// and anything else the distribution label of the parenthetical.
pub open spec fn spec_distro(agent: Option<Seq<char>>) -> Result<Seq<char>, Error> {
    match agent {
        None => Err(Error::PermissionDenied),
        Some(s) => match spec_parenthetical(s) {
            None => Err(Error::InvalidData),
            Some(p) => Ok(spec_distro_label(p)),
        },
    }
}

/// `r` is what the browser-name lookup owes for `agent`: success, carrying
/// exactly the extracted label.
pub open spec fn devicename_matches(r: Result<String, Error>, agent: Seq<char>) -> bool {
    r matches Ok(s) && s@ == spec_devicename(agent)
}

/// `r` is what the distribution lookup owes for `agent`: the same success
/// or failure, with the same label or error.
pub open spec fn distro_matches(r: Result<String, Error>, agent: Option<Seq<char>>) -> bool {
    match (r, spec_distro(agent)) {
        (Ok(s), Ok(d)) => s@ == d,
        (Err(e1), Err(e2)) => e1 == e2,
        _ => false,
    }
}

/// `r` is what the platform lookup owes for `agent`: the family named by
/// the parenthetical, or an Unknown value carrying the required label.
pub open spec fn platform_matches(r: Platform, agent: Seq<char>) -> bool {
    match spec_parenthetical(agent) {
        None => r matches Platform::Unknown(u) && u@ == "Unknown"@,
        Some(p) => if text::contains(p, "Win32"@) || text::contains(p, "Win64"@) {
            r == Platform::Windows
        } else if text::contains(p, "Linux"@) {
            r == Platform::Linux
        } else if text::contains(p, "Mac OS X"@) {
            r == Platform::MacOS
        } else {
            r matches Platform::Unknown(u) && u@ == p
        },
    }
}

/// Results of the platform lookup that carry the same fact: the same
/// family, with Unknown labels equal as text.
pub open spec fn platform_like(a: Platform, b: Platform) -> bool {
    match (a, b) {
        (Platform::Windows, Platform::Windows) => true,
        (Platform::Linux, Platform::Linux) => true,
        (Platform::MacOS, Platform::MacOS) => true,
        (Platform::Unknown(u), Platform::Unknown(v)) => u@ == v@,
        _ => false,
    }
}

/// An agent string without any space character yields exactly the
/// "Unknown Browser" fallback browser name.
pub proof fn lemma_devicename_no_space(agent: Seq<char>)
    requires
        forall|i: int| 0 <= i < agent.len() ==> agent[i] != ' ',
    ensures
        spec_devicename(agent) == "Unknown Browser"@,
{
    reveal_strlit(" ");
    match text::rfind(agent, " "@) {
        Some(j) => {
            text::lemma_rfind_some(agent, " "@, j);
            assert(agent.subrange(j, j + 1)[0] == agent[j]);
            assert(false);
        },
        None => {
        },
    }
}

/// A malformed or empty agent string never fails the platform lookup: it
/// yields the Unknown("Unknown") fallback. The distribution lookup on the
/// same string fails, with exactly `InvalidData`.
pub proof fn lemma_malformed_agent(agent: Seq<char>, p: Platform, d: Result<String, Error>)
    requires
        agent.len() == 0 || spec_parenthetical(agent) is None,
        platform_matches(p, agent),
        distro_matches(d, Some(agent)),
    ensures
        p matches Platform::Unknown(u) && u@ == "Unknown"@,
        d matches Err(e) && e == Error::InvalidData,
{
    if agent.len() == 0 {
        reveal_strlit("(");
        assert(text::find(agent, "("@) is None);
    }
}

/// With no agent string at all, the distribution lookup fails with
/// exactly `PermissionDenied`.
pub proof fn lemma_missing_agent(d: Result<String, Error>)
    requires
        distro_matches(d, None),
    ensures
        d matches Err(e) && e == Error::PermissionDenied,
{
}

/// Browser-name extraction is a pure function of the agent string: any
/// two results that meet `devicename`'s contract for the same input carry
/// the same text.
pub proof fn lemma_devicename_deterministic(
    agent: Seq<char>,
    r1: Result<String, Error>,
    r2: Result<String, Error>,
)
    requires
        devicename_matches(r1, agent),
        devicename_matches(r2, agent),
    ensures
        r1 matches Ok(s1) && r2 matches Ok(s2) && s1@ == s2@,
{
}

/// Distribution extraction is a pure function of the agent value: any two
/// results that meet `distro`'s contract for the same input agree, label
/// and failure alike.
pub proof fn lemma_distro_deterministic(
    agent: Option<Seq<char>>,
    r1: Result<String, Error>,
    r2: Result<String, Error>,
)
    requires
        distro_matches(r1, agent),
        distro_matches(r2, agent),
    ensures
        match (r1, r2) {
            (Ok(s1), Ok(s2)) => s1@ == s2@,
            (Err(e1), Err(e2)) => e1 == e2,
            _ => false,
        },
{
}

/// Platform extraction is a pure function of the agent string: any two
/// results that meet `platform`'s contract for the same input carry the
/// same fact.
pub proof fn lemma_platform_deterministic(agent: Seq<char>, r1: Platform, r2: Platform)
    requires
        platform_matches(r1, agent),
        platform_matches(r2, agent),
    ensures
        platform_like(r1, r2),
{
}

/// The browser-name label of the agent string, with the empty string
/// standing in for a missing one. Always succeeds: unrecognized shapes
/// fall back to a label, never to an error.
pub fn devicename(agent: Option<&str>) -> (r: Result<String, Error>)
    ensures
        devicename_matches(r, agent_view(agent)),
{
    let a: &str = match agent {
        Some(x) => x,
        None => "",
    };
    proof {
        reveal_strlit("");
        assert(agent_view(agent) =~= a@);
    }
    let al = a.unicode_len();
    let sp = match text::rfind_str(a, " ") {
        Some(s) => s,
        None => {
            return Ok(String::from_str("Unknown Browser"));
        },
    };
    proof {
        reveal_strlit(" ");
        text::lemma_rfind_some(a@, " "@, sp as int);
    }
    let tail = a.substring_char(sp + 1, al);
    proof {
        reveal_strlit("/");
        assert(tail@ =~= a@.skip(sp + 1));
    }
    let derived = text::replace_all_str(tail, "/", " ");
    match text::rfind_str(derived.as_str(), "Safari") {
        Some(sa) => {
            match text::rfind_str(a, "Chrome") {
                Some(c) => {
                    proof {
                        reveal_strlit("Chrome");
                        text::lemma_rfind_some(a@, "Chrome"@, c as int);
                    }
                    let ctail = a.substring_char(c, al);
                    proof {
                        assert(ctail@ =~= a@.skip(c as int));
                    }
                    match text::find_str(ctail, " ") {
                        Some(e) => {
                            proof {
                                text::lemma_find_some(ctail@, " "@, e as int);
                            }
                            let head = ctail.substring_char(0, e);
                            proof {
                                assert(head@ =~= a@.skip(c as int).take(e as int));
                            }
                            Ok(text::replace_all_str(head, "/", " "))
                        },
                        None => Ok(String::from_str("Chrome")),
                    }
                },
                None => {
                    if text::contains_str(a, "Linux") {
                        Ok(String::from_str("GNOME Web"))
                    } else {
                        proof {
                            reveal_strlit("Safari");
                            text::lemma_rfind_some(derived@, "Safari"@, sa as int);
                        }
                        let dl = derived.as_str().unicode_len();
                        let stail = derived.as_str().substring_char(sa, dl);
                        proof {
                            assert(stail@ =~= derived@.skip(sa as int));
                        }
                        Ok(text::replace_all_str(stail, "/", " "))
                    }
                },
            }
        },
        None => {
            if text::contains_str(derived.as_str(), "Edg ") {
                proof {
                    reveal_strlit("Edg ");
                }
                Ok(text::replace_all_str(derived.as_str(), "Edg ", "Edge "))
            } else if text::contains_str(derived.as_str(), "OPR ") {
                proof {
                    reveal_strlit("OPR ");
                }
                Ok(text::replace_all_str(derived.as_str(), "OPR ", "Opera "))
            } else {
                Ok(derived)
            }
        },
    }
}

/// The platform parenthetical of `s`, if it has one.
fn parenthetical_str<'a>(s: &'a str) -> (r: Option<&'a str>)
    ensures
        match r {
            Some(p) => spec_parenthetical(s@) == Some(p@),
            None => spec_parenthetical(s@) is None,
        },
{
    let sl = s.unicode_len();
    let b = match text::find_str(s, "(") {
        Some(b) => b,
        None => {
            return None;
        },
    };
    let e = match text::find_str(s, ")") {
        Some(e) => e,
        None => {
            return None;
        },
    };
    proof {
        reveal_strlit("(");
        reveal_strlit(")");
        text::lemma_find_some(s@, "("@, b as int);
        text::lemma_find_some(s@, ")"@, e as int);
    }
    if b + 1 <= e {
        Some(s.substring_char(b + 1, e))
    } else {
        None
    }
}

/// The Windows arm of the distribution lookup.
fn windows_label(p: &str) -> (r: String)
    ensures
        r@ == spec_windows_label(p@),
{
    let pl = p.unicode_len();
    let b = match text::find_str(p, "NT") {
        Some(b) => b,
        None => {
            return String::from_str("Windows");
        },
    };
    proof {
        reveal_strlit("NT");
        text::lemma_find_some(p@, "NT"@, b as int);
    }
    let rest = p.substring_char(b + 2, pl);
    proof {
        assert(rest@ =~= p@.skip(b + 2));
    }
    let e = match text::find_str(rest, ".") {
        Some(e) => e,
        None => {
            return String::from_str("Windows");
        },
    };
    proof {
        reveal_strlit(".");
        text::lemma_find_some(rest@, "."@, e as int);
    }
    if 1 <= e {
        let ver = rest.substring_char(1, e);
        let mut out = String::from_str("Windows ");
        out.append(ver);
        out
    } else {
        String::from_str("Windows")
    }
}

/// The common tail of the Linux arm, after any windowing-system token has
/// been dropped.
fn linux_tail(q: &str) -> (r: String)
    ensures
        r@ == spec_linux_tail(q@),
{
    if text::starts_with_str(q, "Linux") {
        return String::from_str("Unknown Linux");
    }
    match text::find_str(q, ";") {
        None => String::from_str("Unknown Linux"),
        Some(e) => {
            proof {
                reveal_strlit(";");
                text::lemma_find_some(q@, ";"@, e as int);
            }
            let head = q.substring_char(0, e);
            proof {
                assert(head@ =~= q@.take(e as int));
            }
            String::from_str(head)
        },
    }
}

/// The Linux arm of the distribution lookup.
fn linux_label(p: &str) -> (r: String)
    ensures
        r@ == spec_linux_label(p@),
{
    let pl = p.unicode_len();
    if text::contains_str(p, "X11") || text::contains_str(p, "Wayland") {
        match text::find_str(p, ";") {
            None => String::from_str("Unknown Linux"),
            Some(b) => {
                proof {
                    reveal_strlit(";");
                    text::lemma_find_some(p@, ";"@, b as int);
                }
                let b1 = b + 1;
                if b1 < pl {
                    let q = p.substring_char(b1 + 1, pl);
                    proof {
                        assert(q@ =~= p@.skip(b + 2));
                    }
                    linux_tail(q)
                } else {
                    proof {
                        reveal_strlit("");
                        assert(""@ =~= Seq::<char>::empty());
                    }
                    linux_tail("")
                }
            },
        }
    } else {
        linux_tail(p)
    }
}

/// The macOS arm of the distribution lookup, for the token found at `b`.
fn mac_label(p: &str, b: usize) -> (r: String)
    requires
        text::find(p@, "Mac OS X"@) == Some(b as int),
    ensures
        r@ == spec_mac_label(p@, b as int),
{
    let pl = p.unicode_len();
    proof {
        reveal_strlit("Mac OS X");
        text::lemma_find_some(p@, "Mac OS X"@, b as int);
    }
    let rest = p.substring_char(b, pl);
    proof {
        assert(rest@ =~= p@.skip(b as int));
    }
    match text::find_str(rest, ";") {
        Some(e) => {
            proof {
                reveal_strlit(";");
                text::lemma_find_some(rest@, ";"@, e as int);
            }
            let head = rest.substring_char(0, e);
            proof {
                assert(head@ =~= rest@.take(e as int));
            }
            String::from_str(head)
        },
        None => {
            proof {
                reveal_strlit("_");
            }
            text::replace_all_str(rest, "_", ".")
        },
    }
}

/// The distribution label of a parenthetical.
fn distro_label(p: &str) -> (r: String)
    ensures
        r@ == spec_distro_label(p@),
{
    if text::contains_str(p, "Win32") || text::contains_str(p, "Win64") {
        windows_label(p)
    } else if text::contains_str(p, "Linux") {
        linux_label(p)
    } else {
        match text::find_str(p, "Mac OS X") {
            Some(b) => mac_label(p, b),
            None => String::from_str(p),
        }
    }
}

/// The distribution label of the agent string. Fails with
/// `PermissionDenied` when no agent string exists at all, and with
/// `InvalidData` when the string lacks the parenthetical the parser needs;
/// any recognized or unrecognized family within one is a success.
pub fn distro(agent: Option<&str>) -> (r: Result<String, Error>)
    ensures
        distro_matches(r, view_opt(agent)),
{
    let a = match agent {
        Some(x) => x,
        None => {
            return Err(Error::PermissionDenied);
        },
    };
    match parenthetical_str(a) {
        None => Err(Error::InvalidData),
        Some(p) => Ok(distro_label(p)),
    }
}

/// The platform family of the agent string, with the empty string standing
/// in for a missing one. Never fails: a missing or empty parenthetical is
/// the Unknown("Unknown") fallback, an unrecognized one Unknown(verbatim).
pub fn platform(agent: Option<&str>) -> (r: Platform)
    ensures
        platform_matches(r, agent_view(agent)),
{
    let a: &str = match agent {
        Some(x) => x,
        None => "",
    };
    proof {
        reveal_strlit("");
        assert(agent_view(agent) =~= a@);
    }
    match parenthetical_str(a) {
        None => Platform::Unknown(String::from_str("Unknown")),
        Some(p) => {
            if text::contains_str(p, "Win32") || text::contains_str(p, "Win64") {
                Platform::Windows
            } else if text::contains_str(p, "Linux") {
                Platform::Linux
            } else if text::contains_str(p, "Mac OS X") {
                Platform::MacOS
            } else {
                Platform::Unknown(String::from_str(p))
            }
        },
    }
}

} // verus!
