//! Port resolution for the four hardware endpoints. The names of the
//! endpoints are derived from the two configured device names, and the
//! port to open for a role is picked by a case-insensitive substring
//! match over the advertised port names, with a first-port fallback.

use vstd::prelude::*;
use vstd::string::StrSliceExecFns;
use vstd::string::StringExecFns;

verus! {

/// The lowercase folding of a string's characters, as `str::to_lowercase`
/// computes it. It depends on the characters alone.
pub uninterp spec fn lower_of(s: Seq<char>) -> Seq<char>;

/// Relies on str::to_lowercase: the Unicode lowercase equivalent of the
/// string, a function of its characters alone; empty stays empty.
#[verifier::external_body]
fn to_lower(s: &str) -> (r: String)
    ensures
        r@ == lower_of(s@),
        s@.len() == 0 ==> r@.len() == 0,
{
    s.to_lowercase()
}

/// The four endpoint names one generation registers, derived from the
/// configured controller and software names.
#[derive(Clone, Debug, PartialEq, Eq)]
pub struct EndpointNames {
    pub from_controller: String,
    pub to_controller: String,
    pub from_software: String,
    pub to_software: String,
}

/// Derives the endpoint names: `<controller>-router-input` and
/// `<controller>-router-output` with the controller name folded to
/// lowercase, and `from_<software>` / `to_<software>` verbatim.
pub fn endpoint_names(controller_name: &str, software_name: &str) -> (r: EndpointNames)
    ensures
        r.from_controller@ == lower_of(controller_name@) + "-router-input"@,
        r.to_controller@ == lower_of(controller_name@) + "-router-output"@,
        r.from_software@ == "from_"@ + software_name@,
        r.to_software@ == "to_"@ + software_name@,
{
    let mut from_controller = to_lower(controller_name);
    from_controller.append("-router-input");
    let mut to_controller = to_lower(controller_name);
    to_controller.append("-router-output");
    let mut from_software = "from_".to_owned();
    from_software.append(software_name);
    let mut to_software = "to_".to_owned();
    to_software.append(software_name);
    EndpointNames { from_controller, to_controller, from_software, to_software }
}

/// Whether `needle` occurs at position `k` of `hay`.
pub open spec fn match_at(hay: Seq<char>, needle: Seq<char>, k: int) -> bool {
    0 <= k && k + needle.len() <= hay.len() && hay.subrange(k, k + needle.len()) == needle
}

/// Whether `needle` occurs somewhere in `hay`.
pub open spec fn contains_seq(hay: Seq<char>, needle: Seq<char>) -> bool {
    exists|k: int| #[trigger] match_at(hay, needle, k)
}

/// Whether `needle` occurs at position `k` of `hay`, by characters.
fn match_at_exec(hay: &str, needle: &str, k: usize) -> (r: bool)
    requires
        k + needle@.len() <= hay@.len(),
    ensures
        r == match_at(hay@, needle@, k as int),
{
    let hl = hay.unicode_len();
    let nl = needle.unicode_len();
    for j in 0..nl
        invariant
            hl == hay@.len(),
            nl == needle@.len(),
            k + nl <= hl,
            forall|y: int| 0 <= y < j ==> hay@[k + y] == needle@[y],
    {
        if hay.get_char(k + j) != needle.get_char(j) {
            proof {
                assert(!match_at(hay@, needle@, k as int)) by {
                    if match_at(hay@, needle@, k as int) {
                        assert(hay@.subrange(k as int, k + needle@.len())[j as int] == hay@[k + j]);
                    }
                }
            }
            return false;
        }
    }
    proof {
        assert(hay@.subrange(k as int, k + needle@.len()) =~= needle@);
    }
    true
}

/// Whether one string's characters contain another's as a contiguous run.
fn str_contains(hay: &str, needle: &str) -> (r: bool)
    ensures
        r == contains_seq(hay@, needle@),
{
    let hl = hay.unicode_len();
    let nl = needle.unicode_len();
    if nl > hl {
        proof {
            assert forall|k: int| !match_at(hay@, needle@, k) by {}
        }
        return false;
    }
    if nl == 0 {
        proof {
            assert(hay@.subrange(0, 0) =~= needle@);
            assert(match_at(hay@, needle@, 0));
        }
        return true;
    }
    let last = hl - nl;
    for k in 0..last + 1
        invariant
            hl == hay@.len(),
            nl == needle@.len(),
            last == hl - nl,
            forall|x: int| 0 <= x < k ==> !match_at(hay@, needle@, x),
    {
        if match_at_exec(hay, needle, k) {
            return true;
        }
    }
    proof {
        assert forall|k: int| !match_at(hay@, needle@, k) by {}
    }
    false
}

/// No hardware port exists for a required role; the connect attempt
/// fails and the supervisor retries later.
#[derive(Clone, Copy, Debug, PartialEq, Eq, Structural)]
pub enum PortResolutionError {
    NoPortsAvailable,
}

/// Whether an advertised port name matches the target name: its
/// lowercase folding contains the target's lowercase folding.
pub open spec fn port_matches(name: Seq<char>, target: Seq<char>) -> bool {
    contains_seq(lower_of(name), lower_of(target))
}

/// Picks the port to open for a role among the advertised port names:
/// the first whose name case-insensitively contains `target`, else the
/// first port of all (flagged true, so the caller logs a warning), and
/// an error only when no port exists at all.
pub fn resolve_port(port_names: &Vec<String>, target: &str) -> (r: Result<
    (usize, bool),
    PortResolutionError,
>)
    ensures
        r is Err <==> port_names@.len() == 0,
        r matches Err(e) ==> e == PortResolutionError::NoPortsAvailable,
        r matches Ok(p) ==> ({
            &&& p.0 < port_names@.len()
            &&& !p.1 ==> port_matches(port_names@[p.0 as int]@, target@) && (forall|j: int|
                0 <= j < p.0 ==> !port_matches(port_names@[j]@, target@))
            &&& p.1 ==> p.0 == 0 && (forall|j: int|
                0 <= j < port_names@.len() ==> !port_matches(port_names@[j]@, target@))
        }),
{
    if port_names.len() == 0 {
        return Err(PortResolutionError::NoPortsAvailable);
    }
    let target_low = to_lower(target);
    let n = port_names.len();
    for i in 0..n
        invariant
            n == port_names@.len(),
            target_low@ == lower_of(target@),
            forall|j: int| 0 <= j < i ==> !port_matches(port_names@[j]@, target@),
    {
        let name_low = to_lower(port_names[i].as_str());
        if str_contains(name_low.as_str(), target_low.as_str()) {
            return Ok((i, false));
        }
    }
    Ok((0, true))
}

} // verus!
