use typed4safety::divider::ConfigError;
use typed4safety::divider::DividerRatio;
use typed4safety::reader::BatteryVoltageReader;
use typed4safety::reader::ChargeState;
use typed4safety::reader::ErrorCode;
use typed4safety::reader::ReadError;
use typed4safety::reader::SourcePoll;

fn reader(cutoff_mv: Option<u64>, charged_mv: Option<u64>) -> BatteryVoltageReader {
    let divider = DividerRatio::new(500_000, 300_000).unwrap();
    BatteryVoltageReader::new(divider, cutoff_mv, charged_mv).unwrap()
}

#[test]
fn classify_is_inclusive_at_both_thresholds() {
    let r = reader(Some(3000), Some(4000));
    assert_eq!(r.classify(3000), ChargeState::Cutoff);
    assert_eq!(r.classify(4000), ChargeState::Charged);
    assert_eq!(r.classify(3500), ChargeState::Nominal);
}

#[test]
fn classify_next_to_the_thresholds() {
    let r = reader(Some(3000), Some(4000));
    assert_eq!(r.classify(0), ChargeState::Cutoff);
    assert_eq!(r.classify(2999), ChargeState::Cutoff);
    assert_eq!(r.classify(3001), ChargeState::Nominal);
    assert_eq!(r.classify(3999), ChargeState::Nominal);
    assert_eq!(r.classify(4001), ChargeState::Charged);
    assert_eq!(r.classify(u64::MAX), ChargeState::Charged);
}

#[test]
fn classify_without_thresholds() {
    let r = reader(None, None);
    assert_eq!(r.classify(0), ChargeState::Nominal);
    assert_eq!(r.classify(u64::MAX), ChargeState::Nominal);
    let r = reader(Some(3000), None);
    assert_eq!(r.classify(3000), ChargeState::Cutoff);
    assert_eq!(r.classify(u64::MAX), ChargeState::Nominal);
    let r = reader(None, Some(4000));
    assert_eq!(r.classify(0), ChargeState::Nominal);
    assert_eq!(r.classify(4000), ChargeState::Charged);
}

#[test]
fn new_rejects_thresholds_out_of_order() {
    let divider = DividerRatio::new(500_000, 300_000).unwrap();
    assert_eq!(
        BatteryVoltageReader::new(divider, Some(4000), Some(3000)),
        Err(ConfigError::InvalidThresholds)
    );
    assert_eq!(
        BatteryVoltageReader::new(divider, Some(3000), Some(3000)),
        Err(ConfigError::InvalidThresholds)
    );
    assert!(BatteryVoltageReader::new(divider, Some(2999), Some(3000)).is_ok());
    assert!(BatteryVoltageReader::new(divider, Some(u64::MAX), None).is_ok());
    assert!(BatteryVoltageReader::new(divider, None, Some(0)).is_ok());
}

#[test]
fn reader_keeps_its_configuration() {
    let r = reader(Some(3000), Some(4000));
    assert_eq!(r.divider(), DividerRatio::new(500_000, 300_000).unwrap());
    assert_eq!(r.cutoff_mv(), Some(3000));
    assert_eq!(r.charged_mv(), Some(4000));
    let r = reader(None, None);
    assert_eq!(r.cutoff_mv(), None);
    assert_eq!(r.charged_mv(), None);
}

#[test]
fn measure_recovers_the_battery_voltage() {
    let r = reader(None, None);
    assert_eq!(r.measure(SourcePoll::Ready(1200)), Ok(3200));
    assert_eq!(r.measure(SourcePoll::Ready(0)), Ok(0));
    // 1 * 8 / 3 = 2.67
    assert_eq!(r.measure(SourcePoll::Ready(1)), Ok(3));
}

#[test]
fn measure_passes_a_fault_on() {
    let r = reader(None, None);
    assert_eq!(r.measure(SourcePoll::Fault(ErrorCode(7))), Err(ReadError::Source(ErrorCode(7))));
    assert_eq!(r.measure(SourcePoll::Fault(ErrorCode(0))), Err(ReadError::Source(ErrorCode(0))));
}

#[test]
fn measure_fails_where_the_source_is_not_ready() {
    let r = reader(None, None);
    assert_eq!(r.measure(SourcePoll::NotReady), Err(ReadError::NotReady));
}

#[test]
fn measure_reports_overflow() {
    let r = reader(None, None);
    assert_eq!(r.measure(SourcePoll::Ready(u64::MAX)), Err(ReadError::Overflow));
}

#[test]
fn checked_measure_tells_not_ready_from_a_fault() {
    let r = reader(Some(3000), Some(4000));
    assert_eq!(r.checked_measure(SourcePoll::NotReady), Ok(None));
    assert_eq!(
        r.checked_measure(SourcePoll::Fault(ErrorCode(42))),
        Err(ReadError::Source(ErrorCode(42)))
    );
    assert_eq!(r.checked_measure(SourcePoll::Ready(1200)), Ok(Some(3200)));
    assert_eq!(r.checked_measure(SourcePoll::Ready(u64::MAX)), Err(ReadError::Overflow));
}

#[test]
fn measured_voltage_is_classified() {
    let r = reader(Some(3000), Some(4000));
    let low = r.measure(SourcePoll::Ready(1125)).unwrap();
    assert_eq!(low, 3000);
    assert_eq!(r.classify(low), ChargeState::Cutoff);
    let full = r.measure(SourcePoll::Ready(1575)).unwrap();
    assert_eq!(full, 4200);
    assert_eq!(r.classify(full), ChargeState::Charged);
}
