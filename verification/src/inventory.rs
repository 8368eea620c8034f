//! The choice of the nodes to measure among the inbounds of a configuration.

use vstd::prelude::*;
use vstd::string::*;
use crate::evaluator::{EndpointView, ProxyEndpoint};

verus! {

/// One inbound of the configuration, as far as it was given.
#[derive(Clone, Debug, PartialEq, Eq)]
pub struct Inbound {
    pub inbound_type: Option<String>,
    pub tag: Option<String>,
    pub listen_port: Option<u16>,
    pub listen: Option<String>,
}

/// A pattern that could not be used, and why.
#[derive(Clone, Debug, PartialEq, Eq)]
pub struct PatternError {
    pub pattern: String,
    pub detail: String,
}

#[verifier::external_type_specification]
#[verifier::external_body]
pub struct ExPatternFault(regex::Error);

/// Whether the regular expression written as `pattern` finds a match
/// anywhere in `text`.
pub uninterp spec fn pattern_matches(pattern: Seq<char>, text: Seq<char>) -> bool;

/// Compiles `pattern` with `regex::Regex::new` and searches `text` with
/// `regex::Regex::is_match`.
///
/// Where the pattern compiles, the answer is that of the search; it is the
/// meaning of `pattern_matches`. Nothing is claimed of when a pattern
/// compiles.
#[verifier::external_body]
fn search(pattern: &str, text: &str) -> (found: Result<bool, regex::Error>)
    ensures
        found matches Ok(hit) ==> hit == pattern_matches(pattern@, text@),
{
    match regex::Regex::new(pattern) {
        Ok(compiled) => Ok(compiled.is_match(text)),
        Err(fault) => Err(fault),
    }
}

/// The message of a `regex::Error`, as its `Display` writes it. Nothing is
/// claimed of the text.
#[verifier::external_body]
fn fault_text(fault: &regex::Error) -> (text: String) {
    fault.to_string()
}

/// The address is one of the names of the local machine.
pub open spec fn is_local(address: Seq<char>) -> bool {
    address == "127.0.0.1"@ || address == "::1"@ || address == "localhost"@
}

/// The inbound is a SOCKS proxy with a tag and a port that listens on the
/// local machine; one that names no address listens there.
pub open spec fn eligible(inbound: Inbound) -> bool {
    &&& inbound.inbound_type matches Some(kind) && kind@ == "socks"@
    &&& inbound.tag is Some
    &&& inbound.listen_port is Some
    &&& inbound.listen matches Some(address) ==> is_local(address@)
}

/// Every pattern finds a match in the tag.
pub open spec fn all_match(patterns: Seq<String>, tag: Seq<char>) -> bool {
    forall|i: int| 0 <= i < patterns.len() ==> pattern_matches(#[trigger] patterns[i]@, tag)
}

/// The inbound is to be measured.
pub open spec fn wanted(inbound: Inbound, patterns: Seq<String>) -> bool {
    eligible(inbound) && all_match(patterns, inbound.tag->Some_0@)
}

/// The endpoints of the inbounds to be measured, in the order of the
/// inbounds, given for each inbound whether it is to be measured. An inbound
/// for which nothing is given is not measured.
pub open spec fn chosen(inbounds: Seq<Inbound>, verdicts: Seq<bool>) -> Seq<EndpointView>
    decreases inbounds.len(),
{
    if inbounds.len() == 0 {
        Seq::empty()
    } else {
        let earlier = chosen(inbounds.drop_last(), verdicts);
        let last = inbounds.len() - 1;
        if last < verdicts.len() && verdicts[last] && inbounds[last].tag is Some
            && inbounds[last].listen_port is Some {
            earlier.push(
                EndpointView {
                    tag: inbounds[last].tag->Some_0@,
                    port: inbounds[last].listen_port->Some_0,
                },
            )
        } else {
            earlier
        }
    }
}

/// For each inbound, whether it is to be measured.
pub open spec fn verdicts_of(inbounds: Seq<Inbound>, patterns: Seq<String>) -> Seq<bool> {
    Seq::new(inbounds.len(), |i: int| wanted(inbounds[i], patterns))
}

/// The endpoints to measure: those of the eligible inbounds whose tag every
/// pattern matches, in the order of the inbounds.
pub open spec fn selected(inbounds: Seq<Inbound>, patterns: Seq<String>) -> Seq<EndpointView> {
    chosen(inbounds, verdicts_of(inbounds, patterns))
}

/// The views of a sequence of endpoints.
pub open spec fn endpoint_views(nodes: Seq<ProxyEndpoint>) -> Seq<EndpointView> {
    Seq::new(nodes.len(), |i: int| nodes[i]@)
}

/// Whether the address is one of the names of the local machine.
pub fn is_local_address(address: &String) -> (local: bool)
    ensures
        local == is_local(address@),
{
    let v4 = String::from_str("127.0.0.1");
    let v6 = String::from_str("::1");
    let name = String::from_str("localhost");
    *address == v4 || *address == v6 || *address == name
}

/// Whether the inbound is a local SOCKS proxy with a tag and a port.
pub fn is_eligible(inbound: &Inbound) -> (ok: bool)
    ensures
        ok == eligible(*inbound),
{
    let socks = String::from_str("socks");
    let is_socks = match &inbound.inbound_type {
        Some(kind) => *kind == socks,
        None => false,
    };
    let local = match &inbound.listen {
        Some(address) => is_local_address(address),
        None => true,
    };
    is_socks && inbound.tag.is_some() && inbound.listen_port.is_some() && local
}

/// Whether every pattern finds a match in the tag.
///
/// With no pattern every tag is accepted. A pattern that cannot be compiled
/// is reported, with the reason.
pub fn accepts(patterns: &Vec<String>, tag: &str) -> (verdict: Result<bool, PatternError>)
    ensures
        verdict matches Ok(accepted) ==> accepted == all_match(patterns@, tag@),
        verdict matches Err(error) ==> exists|i: int|
            0 <= i < patterns@.len() && error.pattern == #[trigger] patterns@[i],
        patterns@.len() == 0 ==> verdict is Ok,
{
    let mut i: usize = 0;
    while i < patterns.len()
        invariant
            i <= patterns.len(),
            forall|k: int| 0 <= k < i ==> pattern_matches(#[trigger] patterns@[k]@, tag@),
        decreases patterns.len() - i,
    {
        match search(patterns[i].as_str(), tag) {
            Ok(hit) => {
                if !hit {
                    return Ok(false);
                }
            },
            Err(fault) => {
                return Err(
                    PatternError { pattern: patterns[i].clone(), detail: fault_text(&fault) },
                );
            },
        }
        i += 1;
    }
    Ok(true)
}

/// Checks that every pattern can be used, and reports the first that cannot.
///
/// With no pattern there is nothing to report.
pub fn check_patterns(patterns: &Vec<String>) -> (rejected: Option<PatternError>)
    ensures
        rejected matches Some(error) ==> exists|i: int|
            0 <= i < patterns@.len() && error.pattern == #[trigger] patterns@[i],
        patterns@.len() == 0 ==> rejected is None,
{
    let mut faults: Vec<Option<String>> = Vec::new();
    let mut refused = false;
    while faults.len() < patterns.len() && !refused
        invariant
            faults@.len() <= patterns@.len(),
        decreases patterns@.len() - faults@.len(),
    {
        match search(patterns[faults.len()].as_str(), "") {
            Ok(_) => {
                faults.push(None);
            },
            Err(fault) => {
                faults.push(Some(fault_text(&fault)));
                refused = true;
            },
        }
    }
    let rejected = first_rejection(patterns, &faults);
    proof {
        if rejected is Some {
            let error = rejected->Some_0;
            let at = choose|at: int| #[trigger]
                first_fault_at(faults@, at) && at < patterns@.len() && error.pattern
                    == patterns@[at] && error.detail == faults@[at]->Some_0;
            assert(error.pattern == patterns@[at]);
        }
    }
    rejected
}

/// The compile gave a fault for the pattern at `at` and for none before it.
pub open spec fn first_fault_at(faults: Seq<Option<String>>, at: int) -> bool {
    &&& 0 <= at < faults.len()
    &&& faults[at] is Some
    &&& forall|j: int| 0 <= j < at ==> faults[j] is None
}

/// Picks the pattern to report, given for each pattern what compiling it
/// said: nothing where it compiled, the reason where it did not.
///
/// The first pattern with a reason is reported, with that reason. Where no
/// pattern has one there is nothing to report. A reason beyond the last
/// pattern counts for nothing.
pub fn first_rejection(patterns: &Vec<String>, faults: &Vec<Option<String>>) -> (rejected: Option<
    PatternError,
>)
    ensures
        rejected is None <==> forall|i: int|
            0 <= i < faults@.len() && i < patterns@.len() ==> faults@[i] is None,
        rejected matches Some(error) ==> exists|at: int| #[trigger]
            first_fault_at(faults@, at) && at < patterns@.len() && error.pattern == patterns@[at]
                && error.detail == faults@[at]->Some_0,
{
    let mut i: usize = 0;
    while i < patterns.len() && i < faults.len()
        invariant
            forall|j: int| 0 <= j < i ==> faults@[j] is None,
        decreases faults.len() - i,
    {
        match &faults[i] {
            Some(detail) => {
                let error = PatternError { pattern: patterns[i].clone(), detail: detail.clone() };
                assert(first_fault_at(faults@, i as int));
                return Some(error);
            },
            None => {},
        }
        i += 1;
    }
    None
}

/// Keeps the endpoints of the inbounds whose verdict is to measure them.
///
/// An inbound without a tag or a port is left out whatever its verdict, and
/// so is one for which no verdict is given.
pub fn choose_endpoints(inbounds: &Vec<Inbound>, verdicts: &Vec<bool>) -> (nodes: Vec<ProxyEndpoint>)
    ensures
        endpoint_views(nodes@) == chosen(inbounds@, verdicts@),
{
    let mut nodes: Vec<ProxyEndpoint> = Vec::new();
    let mut i: usize = 0;
    while i < inbounds.len()
        invariant
            i <= inbounds.len(),
            endpoint_views(nodes@) == chosen(inbounds@.take(i as int), verdicts@),
        decreases inbounds.len() - i,
    {
        proof {
            assert(inbounds@.take(i + 1).drop_last() == inbounds@.take(i as int));
        }
        let ghost before = nodes@;
        if i < verdicts.len() && verdicts[i] {
            match (&inbounds[i].tag, inbounds[i].listen_port) {
                (Some(tag), Some(port)) => {
                    nodes.push(ProxyEndpoint { tag: tag.clone(), port });
                    assert(endpoint_views(nodes@) =~= endpoint_views(before).push(
                        EndpointView { tag: tag@, port },
                    ));
                },
                _ => {},
            }
        }
        i += 1;
    }
    proof {
        assert(inbounds@.take(i as int) == inbounds@);
    }
    nodes
}

/// Chooses the nodes to measure among the inbounds of a configuration: the
/// local SOCKS proxies with a tag and a port whose tag every pattern
/// matches, in the order of the configuration.
///
/// With no pattern the choice always succeeds. A pattern that cannot be
/// compiled is reported, with the reason, and nothing is chosen.
pub fn select_endpoints(inbounds: &Vec<Inbound>, patterns: &Vec<String>) -> (selection: Result<
    Vec<ProxyEndpoint>,
    PatternError,
>)
    ensures
        selection matches Ok(nodes) ==> endpoint_views(nodes@) == selected(
            inbounds@,
            patterns@,
        ),
        selection matches Err(error) ==> exists|i: int|
            0 <= i < patterns@.len() && error.pattern == #[trigger] patterns@[i],
        patterns@.len() == 0 ==> selection is Ok,
{
    match check_patterns(patterns) {
        Some(error) => {
            return Err(error);
        },
        None => {},
    }
    let mut verdicts: Vec<bool> = Vec::new();
    let mut i: usize = 0;
    while i < inbounds.len()
        invariant
            i <= inbounds.len(),
            verdicts@ == verdicts_of(inbounds@, patterns@).take(i as int),
        decreases inbounds.len() - i,
    {
        let ghost before = verdicts@;
        let mut verdict = false;
        if is_eligible(&inbounds[i]) {
            match &inbounds[i].tag {
                Some(tag) => match accepts(patterns, tag.as_str()) {
                    Ok(accepted) => {
                        verdict = accepted;
                    },
                    Err(error) => {
                        return Err(error);
                    },
                },
                None => {},
            }
        }
        verdicts.push(verdict);
        assert(verdicts@ =~= verdicts_of(inbounds@, patterns@).take(i + 1));
        i += 1;
    }
    assert(verdicts@ =~= verdicts_of(inbounds@, patterns@));
    Ok(choose_endpoints(inbounds, &verdicts))
}

} // verus!
