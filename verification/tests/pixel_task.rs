use hexagon::date_time::DateTime;
use hexagon::drivers::ws2812::Node;
use hexagon::pixel_engine::color::rgb;
use hexagon::pixel_task::{Frame, FrameEnd, PixelState, PixelTask, HEX_UNITS, TRANSITION_TIME};
use hexagon::shaders::initialize_shaders;

#[test]
fn shader_catalogue_holds_ten_animations() {
    let shaders = initialize_shaders();
    let names: Vec<&str> = shaders.iter().map(|s| s.name).collect();
    assert_eq!(
        names,
        vec![
            "Medbay",
            "Honeycomb",
            "80SciFi",
            "Valentines",
            "Dinosaur",
            "Rainbow",
            "Jupiter",
            "Neptune",
            "R2D2",
            "RetroFuturistic"
        ]
    );
    assert!(shaders.iter().all(|s| s.sealed && !s.wifi_only));
    assert!(shaders[2].disabled && shaders[6].disabled && !shaders[0].disabled);
    assert_eq!(shaders[4].segment_count, Some(2));
    assert_eq!(shaders[0].segment_count, None);
    assert_eq!(shaders[0].color, rgb(0, 255, 0));
    assert_eq!(shaders[0].steps.len(), 2);
    assert_eq!(shaders[0].steps[0].color, rgb(0, 0, 255));
    assert_eq!(shaders[0].total_time, 2000);
    assert_eq!(shaders[9].total_time, 5000);
}

#[test]
fn pixel_task_starts_on_medbay() {
    let mut task = PixelTask::new();
    assert_eq!(task.state, PixelState::Loading);
    assert!(task.shader.is_none());
    let effect = task.get_next_effect(0).unwrap();
    assert_eq!(effect.name, "Distributed");
    task.init(5, effect);
    assert_eq!(task.shader.as_ref().unwrap().name, "Medbay");
    assert_eq!(task.day_target, 5 + 1_800_000_000_000);
    for i in 0..HEX_UNITS {
        assert_eq!(task.contexts[i].node_id, i as u64);
        assert_eq!(task.contexts[i].total_nodes, HEX_UNITS as u64);
        assert!(!task.contexts[i].initialized);
    }
}

#[test]
fn pixel_task_picks_by_draw() {
    let task = PixelTask::new();
    assert_eq!(task.get_next_shader(3, b"").unwrap().name, "Valentines");
    assert_eq!(task.get_next_shader(13, b"").unwrap().name, "Valentines");
    assert_eq!(task.get_next_effect(6).unwrap().name, "Grouped");
    assert_eq!(task.find_shader(b"Today: Neptune!").unwrap().name, "Neptune");
    assert!(task.find_shader(b"nothing").is_none());
}

#[test]
fn pixel_task_blends_then_arrives() {
    let mut task = PixelTask::new();
    let effect = task.get_next_effect(1).unwrap();
    task.init(0, effect);
    assert!(task.ready());
    assert!(!task.ready());
    let next = task.get_next_shader(5, b"").unwrap();
    let effect = task.get_next_effect(0).unwrap();
    task.randomize(1_000, 50, next, effect);
    assert_eq!(task.state, PixelState::Transitioning);
    assert_eq!(task.randomize_target, 1_050);
    assert_eq!(task.begin_frame(1_000 + 3_000_000), Frame::Blend { elapsed: 3 });
    let segment = task.node_effect(0, 3, (0, 0));
    assert!(task.contexts[0].initialized);
    assert_eq!(task.contexts[0].offset, 0);
    assert_eq!(segment.from, 0);
    assert_eq!(segment.to, 100);
    task.show_node(1, rgb(1, 2, 3), false);
    assert_eq!(task.driver.nodes[3], Node::new(1, 2, 3));
    assert_eq!(task.driver.nodes[5], Node::new(1, 2, 3));
    assert_eq!(task.driver.nodes[6], Node::new(0, 0, 0));
    assert_eq!(task.color_buffer[1], rgb(255, 255, 255));
    let arrival = 1_000 + TRANSITION_TIME * 1_000_000 + 1;
    assert_eq!(task.begin_frame(arrival), Frame::Arrived);
    assert_eq!(task.state, PixelState::MainSequence);
    assert_eq!(task.shader.as_ref().unwrap().name, "Rainbow");
    assert_eq!(task.transition_offset, 1_000);
    assert_eq!(task.begin_frame(1_000 + 7_000_000), Frame::Show { elapsed: 7 });
    assert_eq!(task.end_frame(1_040), FrameEnd::Nothing);
    assert_eq!(task.end_frame(1_051), FrameEnd::Randomize);
    task.show_node(0, rgb(9, 9, 9), true);
    assert_eq!(task.color_buffer[0], rgb(9, 9, 9));
    assert_eq!(task.driver.flush().len(), 12 * 24);
}

#[test]
fn pixel_task_checks_the_day_once() {
    let mut task = PixelTask::new();
    assert!(task.check_day(DateTime { days: 3, hour: 7 }));
    assert_eq!(task.day_processed, 3);
    assert!(!task.check_day(DateTime { days: 3, hour: 9 }));
    assert!(!task.check_day(DateTime { days: 4, hour: 5 }));
}
