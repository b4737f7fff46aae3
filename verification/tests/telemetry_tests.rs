use mesh_core::telemetry::{u64_to_dec, Direction, ErrorKind, ErrorLabels, Sensors};

#[test]
fn decimal_rendering_is_exact() {
    assert_eq!(u64_to_dec(0), "0");
    assert_eq!(u64_to_dec(7), "7");
    assert_eq!(u64_to_dec(10), "10");
    assert_eq!(u64_to_dec(42), "42");
    assert_eq!(u64_to_dec(1_234_567_890), "1234567890");
    assert_eq!(u64_to_dec(u64::MAX), "18446744073709551615");
}

#[test]
fn labels_render_direction_and_kind() {
    assert_eq!(Direction::Inbound.label(), "direction=\"inbound\"");
    assert_eq!(Direction::Outbound.label(), "direction=\"outbound\"");
    assert_eq!(ErrorKind::Route.label(), "kind=\"route\"");
    assert_eq!(ErrorKind::Capacity.label(), "kind=\"at_capacity\"");
    assert_eq!(
        ErrorKind::NotRecognized.label(),
        "kind=\"route_not_recognized\""
    );
    assert_eq!(ErrorKind::Inner.label(), "kind=\"inner\"");
    let l = ErrorLabels {
        direction: Direction::Inbound,
        kind: ErrorKind::Inner,
    };
    assert_eq!(l.label(), "direction=\"inbound\",kind=\"inner\"");
}

#[test]
fn report_renders_counters_and_gauge() {
    let mut sensors = Sensors::new();
    sensors.query_counter_mut().query_started();
    sensors.query_counter_mut().query_started();
    sensors.query_counter_mut().query_finished();
    assert_eq!(sensors.query_counter().active_queries(), 1);

    let mut errors = sensors.error_total(Direction::Inbound);
    errors.route_error();
    errors.route_error();
    errors.inner_error();

    let report = sensors.report();
    let rendered = report.render(&errors);
    let expected = "\
# HELP router_error_total Total number of router errors.\n\
# TYPE router_error_total counter\n\
router_error_total{direction=\"inbound\",kind=\"route\"} 2\n\
router_error_total{direction=\"inbound\",kind=\"inner\"} 1\n\
# HELP router_active_destination_queries Current number of active Destination service queries.\n\
# TYPE router_active_destination_queries gauge\n\
router_active_destination_queries 1\n";
    assert_eq!(rendered, expected);
}

#[test]
fn report_with_no_errors_renders_gauge_only() {
    let sensors = Sensors::new();
    let errors = sensors.error_total(Direction::Outbound);
    let rendered = sensors.report().render(&errors);
    let expected = "\
# HELP router_error_total Total number of router errors.\n\
# TYPE router_error_total counter\n\
# HELP router_active_destination_queries Current number of active Destination service queries.\n\
# TYPE router_active_destination_queries gauge\n\
router_active_destination_queries 0\n";
    assert_eq!(rendered, expected);
}

#[test]
fn each_error_kind_has_its_own_counter() {
    let sensors = Sensors::new();
    let mut errors = sensors.error_total(Direction::Outbound);
    errors.route_not_recognized();
    errors.at_capacity();
    errors.route_error();
    errors.inner_error();
    errors.route_not_recognized();

    let rendered = sensors.report().render(&errors);
    assert!(rendered
        .contains("router_error_total{direction=\"outbound\",kind=\"route_not_recognized\"} 2\n"));
    assert!(rendered.contains("router_error_total{direction=\"outbound\",kind=\"at_capacity\"} 1\n"));
    assert!(rendered.contains("router_error_total{direction=\"outbound\",kind=\"route\"} 1\n"));
    assert!(rendered.contains("router_error_total{direction=\"outbound\",kind=\"inner\"} 1\n"));
}
