use hexagon::date_time::{DateTime, WorldClock};
use hexagon::gate::{Gate, GateCondition};
use hexagon::models::SystemCommand;
use hexagon::tasks::ws2812_task::shader::{BasicShader, Shader, ShaderContext, XmasShader};
use hexagon::tasks::ws2812_task::ActiveShader;

#[test]
fn world_clock_reads_back() {
    let mut clock = WorldClock::new();
    assert_eq!(clock.get_utc_offset(), 8);
    assert_eq!(clock.get_tranasition_delay(), 1_800_000_000_000);
    clock.set_world_time(1000, 5_000_000_000);
    assert_eq!(clock.get_world_time(5_000_000_000), 1000);
    assert_eq!(clock.get_world_time(7_500_000_000), 1002);
    clock.set_utc_offset(7);
    clock.set_transition_delay(5);
    assert_eq!(clock.get_utc_offset(), 7);
    assert_eq!(clock.get_tranasition_delay(), 5);
}

#[test]
fn coarse_dates() {
    assert_eq!(DateTime::from_world_time(3600 * 500, 8), DateTime { days: 20, hour: 12 });
    assert_eq!(DateTime::from_world_time(86400, 0), DateTime { days: 1, hour: 0 });
    assert_eq!(DateTime::from_world_time(3600 * 3, 8), DateTime { days: 0, hour: 19 });
    let mut clock = WorldClock::new();
    clock.set_world_time(3600 * 500, 0);
    assert_eq!(DateTime::now(&clock, 0), DateTime { days: 20, hour: 12 });
}

#[test]
fn timed_steps() {
    let mut steps = Gate::new();
    steps.when_nano(100, 7).when(3, 9);
    assert_eq!(steps.tail, 2);
    assert!(steps.conditions[1] == GateCondition::Custom(3));
    let (_, first) = steps.compile(0, false);
    assert_eq!(first, None);
    assert!(steps.compiled);
    let (_, due) = steps.compile(50, false);
    assert_eq!(due, Some(7));
    assert_eq!(steps.current_index, 1);
    assert_eq!(steps.process(60, false), None);
    assert_eq!(steps.process(60, true), Some(9));
    assert_eq!(steps.current_index, 0);
    assert_eq!(steps.target_times[0], 160);
    assert_eq!(steps.process(160, false), None);
    assert_eq!(steps.process(161, false), Some(7));
}

#[test]
fn gate_marked_once_runs_once() {
    let mut gate = Gate::new();
    gate.when(1, 5).once();
    gate.compile(0, true);
    assert_eq!(gate.process(1, true), Some(5));
    assert!(gate.finished);
    assert_eq!(gate.process(2, true), None);
    assert_eq!(gate.process(3, true), None);
    let mut two = Gate::new();
    two.when(1, 5).when(2, 6).once();
    two.compile(0, true);
    assert_eq!(two.process(1, true), Some(5));
    assert_eq!(two.process(2, true), Some(6));
    assert_eq!(two.process(3, true), None);
}

#[test]
fn empty_command() {
    let command = SystemCommand::new();
    assert_eq!(command.command, [0; 4]);
    assert_eq!(command.args, [i32::MAX; 10]);
    assert_eq!(command.checksum, 0);
}

#[test]
fn strip_task_shaders() {
    assert_eq!(ActiveShader::list()[2], ActiveShader::Constrained);
    let mut basic = BasicShader::new();
    let context = ShaderContext::new(0, 100, 42);
    assert_eq!(context.current_time, 42);
    let next = basic.update(context);
    assert_eq!(next.color, 0x00FF00);
    assert_eq!(basic.count, 1);

    let mut xmas = XmasShader::new();
    let start = xmas.init(context, 172);
    assert_eq!(start.registers[0], 2);
    let mut late = start;
    late.registers[0] = 200;
    xmas.count = 9;
    let after = xmas.update(late);
    assert_eq!(after.registers[0], 201);
    assert_eq!(xmas.count, 0);
}
