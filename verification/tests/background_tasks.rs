use hexagon::audio_task::AudioTask;
use hexagon::datastructures::Vector;
use hexagon::drivers::max31820::Max31820Driver;
use hexagon::drivers::wifi::WifiDriver;
use hexagon::math::XorShift;
use hexagon::serio::SerioDevice;
use hexagon::tasks::wifi_task::{WifiEvent, WifiTask, DNS_LOOKUP_DONE, HTTP_REQUEST_DONE};
use hexagon::thermal_task::{ThermalStep, ThermalTask};

#[test]
fn thermal_task_samples_then_seeds() {
    let mut task = ThermalTask::new(Max31820Driver::new(14));
    assert_eq!(task.system_loop(0), ThermalStep::Idle);
    for k in 0..5u64 {
        let now = 1 + k * 300_000_001;
        assert_eq!(task.system_loop(now), ThermalStep::Sample);
        assert_eq!(task.system_loop(now), ThermalStep::Idle);
        task.record_sample(if k == 2 { None } else { Some(10) });
    }
    assert!(!task.loaded);
    let seed = 1337 + 10 * 3 + 10 * 5 + 10 * 11 + 10 * 13;
    assert_eq!(task.system_loop(2_000_000_000), ThermalStep::Seed(seed));
    assert!(task.loaded);
    assert_eq!(task.count, 6);
    assert_eq!(task.system_loop(3_000_000_000), ThermalStep::Idle);
    assert_eq!(task.next_event, 3_300_000_000);
}

#[test]
fn audio_task_reports_each_band() {
    let mut task = AudioTask::new();
    assert_eq!(task.driver.strobe_pin, 11);
    assert!(task.system_loop(1));
    assert_eq!(task.next_event, 1_000_000_001);
    assert!(!task.system_loop(1_000_000_001));
    let report = AudioTask::report(&[0, 1, 22, 333, 4, 5, 6]);
    let text = String::from_utf8(report).unwrap();
    assert_eq!(
        text,
        "0 band 0\n1 band 1\n22 band 2\n333 band 3\n4 band 4\n5 band 5\n6 band 6\n\n"
    );
}

#[test]
fn wifi_task_queues_start_up_and_time_request() {
    let mut task = WifiTask::new(WifiDriver::new(SerioDevice::Uart3, 1, 2));
    task.init();
    assert_eq!(task.driver.queued_commands.size(), 3);
    let outputs: Vec<Vector<u8>> = vec![Vector::from_slice(b"1.2.3.4")];
    assert_eq!(task.handle_callback(DNS_LOOKUP_DONE, &outputs), WifiEvent::RequestQueued);
    assert_eq!(task.driver.queued_commands.size(), 4);
    let empty: Vec<Vector<u8>> = Vec::new();
    assert_eq!(task.handle_callback(DNS_LOOKUP_DONE, &empty), WifiEvent::DnsComplete);
    assert_eq!(task.driver.queued_commands.size(), 4);
    assert!(!task.http_complete);
    assert_eq!(task.handle_callback(HTTP_REQUEST_DONE, &empty), WifiEvent::HttpComplete);
    assert!(task.http_complete);
    assert_eq!(task.handle_callback(77, &empty), WifiEvent::Nothing);
}

#[test]
fn xorshift_first_numbers() {
    let mut generator = XorShift::new();
    assert_eq!(generator.rand(), 543446732446);
    assert_eq!(generator.rand(), 35982188189549508);
    generator.seed_rand(7);
    assert_eq!(generator.regs[0], 7);
}
