//! The decisions of a client's bootstrap.  The client dials its bootstrap
//! multiaddrs in order and stops at the first dial that succeeds; with no
//! multiaddrs configured it first resolves its bootstrap URLs into some.
//! The caller performs each step (resolving, dialing) and hands the outcome
//! back to get the next one.
use vstd::prelude::*;

verus! {

#[derive(Debug, Clone, Copy, PartialEq, Eq, Structural)]
pub enum BootstrapError {
    /// Neither multiaddrs nor URLs to get them from.
    BootstrapFailedNoUrls,
    /// The URLs could not be resolved into multiaddrs.
    BootstrapFailedNoMultiaddrs,
    /// No dial succeeded.
    BootstrapFailedDial,
}

/// What the bootstrap does next.
#[derive(Debug, Clone, Copy, PartialEq, Eq, Structural)]
pub enum BootstrapStep {
    /// Resolve the bootstrap URLs into multiaddrs.
    FetchMultiaddrs,
    /// Dial the multiaddr at this index.
    Dial(usize),
    /// A dial succeeded.
    Done,
    /// The bootstrap failed.
    Failed(BootstrapError),
}

/// The first step, given how many multiaddrs and URLs are configured.
pub open spec fn start_step(multiaddrs: nat, urls: nat) -> BootstrapStep {
    if multiaddrs > 0 {
        BootstrapStep::Dial(0)
    } else if urls == 0 {
        BootstrapStep::Failed(BootstrapError::BootstrapFailedNoUrls)
    } else {
        BootstrapStep::FetchMultiaddrs
    }
}

/// The step after resolving the URLs: `None` if that failed, else how many
/// multiaddrs came back.
pub open spec fn fetched_step(fetched: Option<nat>) -> BootstrapStep {
    match fetched {
        None => BootstrapStep::Failed(BootstrapError::BootstrapFailedNoMultiaddrs),
        Some(n) => if n > 0 {
            BootstrapStep::Dial(0)
        } else {
            BootstrapStep::Failed(BootstrapError::BootstrapFailedDial)
        },
    }
}

/// The step after dialing multiaddr `index` of `count`.
pub open spec fn dialed_step(index: nat, count: nat, dialed: bool) -> BootstrapStep {
    if dialed {
        BootstrapStep::Done
    } else if index + 1 < count {
        BootstrapStep::Dial((index + 1) as usize)
    } else {
        BootstrapStep::Failed(BootstrapError::BootstrapFailedDial)
    }
}

pub fn bootstrap_start(multiaddrs: usize, urls: usize) -> (r: BootstrapStep)
    ensures
        r == start_step(multiaddrs as nat, urls as nat),
{
    if multiaddrs > 0 {
        BootstrapStep::Dial(0)
    } else if urls == 0 {
        BootstrapStep::Failed(BootstrapError::BootstrapFailedNoUrls)
    } else {
        BootstrapStep::FetchMultiaddrs
    }
}

pub fn bootstrap_fetched(fetched: Option<usize>) -> (r: BootstrapStep)
    ensures
        r == fetched_step(
            match fetched {
                Some(n) => Some(n as nat),
                None => None,
            },
        ),
{
    match fetched {
        None => BootstrapStep::Failed(BootstrapError::BootstrapFailedNoMultiaddrs),
        Some(n) => if n > 0 {
            BootstrapStep::Dial(0)
        } else {
            BootstrapStep::Failed(BootstrapError::BootstrapFailedDial)
        },
    }
}

pub fn bootstrap_dialed(index: usize, count: usize, dialed: bool) -> (r: BootstrapStep)
    requires
        index < count,
    ensures
        r == dialed_step(index as nat, count as nat, dialed),
{
    if dialed {
        BootstrapStep::Done
    } else if index + 1 < count {
        BootstrapStep::Dial(index + 1)
    } else {
        BootstrapStep::Failed(BootstrapError::BootstrapFailedDial)
    }
}

/// Where dialing ends when the dials from `index` on succeed or fail as
/// `results` says.
pub open spec fn dial_outcome(results: Seq<bool>, index: nat) -> BootstrapStep
    decreases results.len() - index,
{
    if index >= results.len() {
        BootstrapStep::Failed(BootstrapError::BootstrapFailedDial)
    } else {
        match dialed_step(index, results.len(), results[index as int]) {
            BootstrapStep::Dial(_) => dial_outcome(results, index + 1),
            s => s,
        }
    }
}

/// Dialing from multiaddr `index` on ends in `Done` exactly when some dial
/// from there succeeds, and fails with `BootstrapFailedDial` otherwise.
pub proof fn law_dialing_succeeds_iff_a_dial_does(results: Seq<bool>, index: nat)
    ensures
        dial_outcome(results, index) == BootstrapStep::Done <==> exists|i: int|
            index <= i < results.len() && #[trigger] results[i],
        dial_outcome(results, index) != BootstrapStep::Done ==> dial_outcome(results, index)
            == BootstrapStep::Failed(BootstrapError::BootstrapFailedDial),
    decreases results.len() - index,
{
    if index < results.len() {
        law_dialing_succeeds_iff_a_dial_does(results, index + 1);
        if !results[index as int] && index + 1 < results.len() {
            if exists|i: int| index <= i < results.len() && #[trigger] results[i] {
                let i = choose|i: int| index <= i < results.len() && #[trigger] results[i];
                assert(i != index);
                assert(index + 1 <= i);
            }
        }
    }
}

} // verus!
