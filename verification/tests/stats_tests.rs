use rtc_relay::stats::PendingQuota;
use rtc_relay::stats::PendingQuotaSummary;
use rtc_relay::stats::RunningTransfer;
use rtc_relay::stats::RunningTransferSummary;
use rtc_relay::stats::StreamStatistics;

/// Byte counts aggregate through the whole parent chain.
#[test]
fn stream_statistics_aggregate() {
    let root = StreamStatistics::new();
    let mut child = StreamStatistics::new_parent(root);
    child.increase_read(100);
    child.increase_write(40);
    child.increase_read(1);
    assert_eq!(child.bytes_read(), 101);
    assert_eq!(child.bytes_write(), 40);
    let parent = child.parent.as_ref().expect("parent");
    assert_eq!(parent.bytes_read(), 101);
    assert_eq!(parent.bytes_write(), 40);
}

/// Quota summaries keep the realized bytes below the total and aggregate
/// upwards.
#[test]
fn quota_summaries_aggregate() {
    let root = PendingQuotaSummary::new(None, (0, 0));
    let mut summary = PendingQuotaSummary::new(Some(Box::new(root)), (1000, 200));
    assert_eq!(summary.info(), (1000, 200));

    let mut quota = PendingQuota::new(500);
    summary.add_quota(&quota);
    assert_eq!(summary.total_bytes(), 1500);
    assert_eq!(summary.realized_bytes(), 200);
    assert_eq!(summary.parent.as_ref().unwrap().total_bytes(), 500);

    quota.increase_realized_bytes(120);
    summary.increase_realized_bytes(120);
    assert_eq!(summary.realized_bytes(), 320);
    assert_eq!(summary.parent.as_ref().unwrap().realized_bytes(), 120);

    // the transfer ends: the unrealized 380 bytes leave the pending total
    summary.remove_quota(&quota);
    assert_eq!(summary.total_bytes(), 1120);
    assert_eq!(summary.parent.as_ref().unwrap().total_bytes(), 120);
}

/// Running-transfer counts aggregate upwards and go back down on
/// unregistering.
#[test]
fn running_transfers_are_counted() {
    let root = RunningTransferSummary::new(None);
    let mut summary = RunningTransferSummary::new(Some(Box::new(root)));
    let _first = RunningTransfer::new(1, &mut summary);
    let _second = RunningTransfer::new(2, &mut summary);
    assert_eq!(summary.running_transfers(), 2);
    assert_eq!(summary.parent.as_ref().unwrap().running_transfers(), 2);
    summary.unregister_transfer();
    assert_eq!(summary.running_transfers(), 1);
    assert_eq!(summary.parent.as_ref().unwrap().running_transfers(), 1);
}
