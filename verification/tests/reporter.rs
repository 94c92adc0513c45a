use prime_hunter::reporter::{reporter_step, ReporterAction};

#[test]
fn polls_while_running() {
    assert_eq!(reporter_step(true), ReporterAction::Poll);
}

#[test]
fn finishes_on_first_cleared_flag() {
    // However many ticks came before, the first read of a lowered flag ends
    // the reporter - including a run with zero ticks.
    assert_eq!(reporter_step(false), ReporterAction::Finish);
}
