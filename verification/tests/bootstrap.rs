use heapswap::bootstrap::{
    bootstrap_dialed, bootstrap_fetched, bootstrap_start, BootstrapError, BootstrapStep,
};

#[test]
fn start_prefers_configured_multiaddrs() {
    assert_eq!(bootstrap_start(2, 0), BootstrapStep::Dial(0));
    assert_eq!(bootstrap_start(2, 5), BootstrapStep::Dial(0));
    assert_eq!(bootstrap_start(0, 1), BootstrapStep::FetchMultiaddrs);
    assert_eq!(bootstrap_start(0, 0), BootstrapStep::Failed(BootstrapError::BootstrapFailedNoUrls));
}

#[test]
fn after_fetching() {
    assert_eq!(
        bootstrap_fetched(None),
        BootstrapStep::Failed(BootstrapError::BootstrapFailedNoMultiaddrs)
    );
    assert_eq!(bootstrap_fetched(Some(0)), BootstrapStep::Failed(BootstrapError::BootstrapFailedDial));
    assert_eq!(bootstrap_fetched(Some(3)), BootstrapStep::Dial(0));
}

#[test]
fn dialing_stops_at_the_first_success() {
    assert_eq!(bootstrap_dialed(0, 3, false), BootstrapStep::Dial(1));
    assert_eq!(bootstrap_dialed(1, 3, true), BootstrapStep::Done);
    assert_eq!(bootstrap_dialed(2, 3, false), BootstrapStep::Failed(BootstrapError::BootstrapFailedDial));
}

/// Runs the steps against a list of dial outcomes, counting the dials.
fn run(multiaddrs: usize, urls: usize, fetched: Option<usize>, dials: &[bool]) -> (BootstrapStep, usize) {
    let mut count = multiaddrs;
    let mut step = bootstrap_start(multiaddrs, urls);
    let mut dialed = 0;
    loop {
        match step {
            BootstrapStep::FetchMultiaddrs => {
                count = fetched.unwrap_or(0);
                step = bootstrap_fetched(fetched);
            },
            BootstrapStep::Dial(i) => {
                dialed += 1;
                step = bootstrap_dialed(i, count, dials[i]);
            },
            other => return (other, dialed),
        }
    }
}

#[test]
fn bootstrap_succeeds_iff_a_dial_does() {
    assert_eq!(run(3, 0, None, &[false, true, true]), (BootstrapStep::Done, 2));
    assert_eq!(
        run(3, 0, None, &[false, false, false]),
        (BootstrapStep::Failed(BootstrapError::BootstrapFailedDial), 3)
    );
    assert_eq!(run(0, 2, Some(2), &[true, false]), (BootstrapStep::Done, 1));
    assert_eq!(
        run(0, 2, None, &[]),
        (BootstrapStep::Failed(BootstrapError::BootstrapFailedNoMultiaddrs), 0)
    );
}
