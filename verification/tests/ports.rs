use vu_meter::aggregator::{BlockPeak, LevelAggregator};
use vu_meter::ports::{
    input_port_name, parse_mapping, parse_mappings, Action, ConnectPlan, Outcome, PortMapping,
    SetupError,
};
use vu_meter::text::text_line;

fn plan_of(args: &[&str]) -> ConnectPlan {
    let args: Vec<String> = args.iter().map(|arg| arg.to_string()).collect();
    ConnectPlan::new(parse_mappings(&args))
}

fn connect(plan: &mut ConnectPlan) -> Action {
    plan.advance(Outcome::SourceFound { is_output: true });
    plan.advance(Outcome::Registered { same_type: true });
    plan.advance(Outcome::Connected)
}

#[test]
fn a_mapping_names_its_source() {
    let mapping = parse_mapping(0, "system:capture_1");
    assert_eq!(mapping.channel, 1);
    assert_eq!(mapping.source, "system:capture_1");
    assert!(!mapping.optional);
}

#[test]
fn a_trailing_question_mark_makes_a_mapping_optional() {
    let mapping = parse_mapping(4, "foo?");
    assert_eq!(mapping.channel, 5);
    assert_eq!(mapping.source, "foo");
    assert!(mapping.optional);
}

#[test]
fn only_the_last_question_mark_is_the_mark() {
    let mapping = parse_mapping(0, "foo??");
    assert_eq!(mapping.source, "foo?");
    assert!(mapping.optional);
    let mapping = parse_mapping(0, "fo?o");
    assert_eq!(mapping.source, "fo?o");
    assert!(!mapping.optional);
    let mapping = parse_mapping(0, "foo?:ch1");
    assert_eq!(mapping.source, "foo?:ch1");
    assert!(!mapping.optional);
}

#[test]
fn mappings_of_few_characters() {
    let mapping = parse_mapping(0, "");
    assert_eq!(mapping.source, "");
    assert!(!mapping.optional);
    let mapping = parse_mapping(0, "?");
    assert_eq!(mapping.source, "");
    assert!(mapping.optional);
}

#[test]
fn mappings_count_characters_not_bytes() {
    let mapping = parse_mapping(0, "h\u{f6}rer:\u{266b}?");
    assert_eq!(mapping.source, "h\u{f6}rer:\u{266b}");
    assert!(mapping.optional);
}

#[test]
fn mappings_are_numbered_in_order() {
    let args = vec!["a:1".to_string(), "b:2?".to_string(), "c:3".to_string()];
    let mappings: Vec<PortMapping> = parse_mappings(&args);
    assert_eq!(mappings.len(), 3);
    assert_eq!(mappings[0].channel, 1);
    assert_eq!(mappings[1].channel, 2);
    assert_eq!(mappings[2].channel, 3);
    assert_eq!(mappings[1].source, "b:2");
    assert!(mappings[1].optional);
    assert!(!mappings[2].optional);
    assert!(parse_mappings(&Vec::new()).is_empty());
}

#[test]
fn input_ports_are_named_by_number() {
    assert_eq!(input_port_name(1), "in_2");
    assert_eq!(input_port_name(2), "in_3");
    assert_eq!(input_port_name(9), "in_10");
    assert_eq!(input_port_name(0), "in_1");
    assert_eq!(input_port_name(usize::MAX), format!("in_{}", usize::MAX as u128 + 1));
}

#[test]
fn a_plan_without_mappings_is_done() {
    let mut plan = plan_of(&[]);
    assert_eq!(plan.mapping_count(), 0);
    assert_eq!(plan.pending(), Action::Done);
    assert_eq!(plan.advance(Outcome::Connected), Action::Done);
    assert!(plan.kept().is_empty());
}

#[test]
fn a_mapping_is_looked_up_registered_and_connected() {
    let mut plan = plan_of(&["system:capture_1", "system:capture_2"]);
    assert_eq!(plan.mapping_count(), 2);
    assert_eq!(plan.mapping(1).source, "system:capture_2");
    assert_eq!(plan.pending(), Action::LookUp { index: 0 });
    assert_eq!(
        plan.advance(Outcome::SourceFound { is_output: true }),
        Action::Register { index: 0 }
    );
    assert_eq!(plan.advance(Outcome::Registered { same_type: true }), Action::Connect { index: 0 });
    assert_eq!(plan.advance(Outcome::Connected), Action::LookUp { index: 1 });
    assert_eq!(plan.kept(), &vec![0]);
    assert_eq!(connect(&mut plan), Action::Done);
    assert_eq!(plan.kept(), &vec![0, 1]);
    assert_eq!(plan.pending(), Action::Done);
}

#[test]
fn an_optional_mapping_to_a_missing_port_is_passed_over() {
    let mut plan = plan_of(&["system:capture_1", "foo?", "system:capture_3"]);
    assert_eq!(connect(&mut plan), Action::LookUp { index: 1 });
    assert_eq!(plan.advance(Outcome::SourceMissing), Action::LookUp { index: 2 });
    assert_eq!(connect(&mut plan), Action::Done);
    // the channel of the optional mapping stays unconnected
    assert_eq!(plan.kept(), &vec![0, 2]);
}

#[test]
fn a_required_mapping_to_a_missing_port_is_fatal() {
    let mut plan = plan_of(&["system:capture_1", "foo"]);
    assert_eq!(connect(&mut plan), Action::LookUp { index: 1 });
    let failed = Action::Fail { index: 1, error: SetupError::NoSuchPort };
    assert_eq!(plan.advance(Outcome::SourceMissing), failed);
    // nothing goes on after a failure
    assert_eq!(plan.advance(Outcome::SourceFound { is_output: true }), failed);
    assert_eq!(plan.advance(Outcome::Connected), failed);
    assert_eq!(plan.pending(), failed);
    assert_eq!(plan.kept(), &vec![0]);
}

#[test]
fn an_optional_source_that_is_no_output_is_passed_over() {
    let mut plan = plan_of(&["system:playback_1?", "system:capture_1"]);
    assert_eq!(
        plan.advance(Outcome::SourceFound { is_output: false }),
        Action::LookUp { index: 1 }
    );
    // no input port was registered for it
    assert!(plan.kept().is_empty());
    assert_eq!(connect(&mut plan), Action::Done);
    assert_eq!(plan.kept(), &vec![1]);
}

#[test]
fn a_required_source_that_is_no_output_is_fatal() {
    let mut plan = plan_of(&["system:playback_1"]);
    assert_eq!(
        plan.advance(Outcome::SourceFound { is_output: false }),
        Action::Fail { index: 0, error: SetupError::NotAnOutput }
    );
    assert!(plan.kept().is_empty());
}

#[test]
fn a_port_that_cannot_be_registered_is_fatal() {
    let mut plan = plan_of(&["system:capture_1?"]);
    plan.advance(Outcome::SourceFound { is_output: true });
    assert_eq!(
        plan.advance(Outcome::RegisterFailed),
        Action::Fail { index: 0, error: SetupError::RegisterFailed }
    );
    let mut plan = plan_of(&["system:capture_1"]);
    plan.advance(Outcome::SourceFound { is_output: true });
    assert_eq!(
        plan.advance(Outcome::RegisterFailed),
        Action::Fail { index: 0, error: SetupError::RegisterFailed }
    );
}

#[test]
fn an_optional_source_of_another_type_is_passed_over() {
    let mut plan = plan_of(&["foo?"]);
    plan.advance(Outcome::SourceFound { is_output: true });
    assert_eq!(plan.advance(Outcome::Registered { same_type: false }), Action::Done);
    // the input port is registered by then and stays in use, unconnected
    assert_eq!(plan.kept(), &vec![0]);
    assert_eq!(plan.channel_count(), 1);

    let mut plan = plan_of(&["midi:out?", "system:capture_1"]);
    plan.advance(Outcome::SourceFound { is_output: true });
    assert_eq!(
        plan.advance(Outcome::Registered { same_type: false }),
        Action::LookUp { index: 1 }
    );
    assert_eq!(connect(&mut plan), Action::Done);
    assert_eq!(plan.kept(), &vec![0, 1]);
}

#[test]
fn a_required_source_of_another_type_is_fatal() {
    let mut plan = plan_of(&["midi:out"]);
    plan.advance(Outcome::SourceFound { is_output: true });
    assert_eq!(
        plan.advance(Outcome::Registered { same_type: false }),
        Action::Fail { index: 0, error: SetupError::WrongType }
    );
    assert!(plan.kept().is_empty());
}

#[test]
fn only_mappings_without_the_mark_are_fatal() {
    let failures = [
        (Vec::new(), Outcome::SourceMissing, SetupError::NoSuchPort),
        (Vec::new(), Outcome::SourceFound { is_output: false }, SetupError::NotAnOutput),
        (
            vec![Outcome::SourceFound { is_output: true }],
            Outcome::Registered { same_type: false },
            SetupError::WrongType,
        ),
        (
            vec![Outcome::SourceFound { is_output: true }, Outcome::Registered { same_type: true }],
            Outcome::ConnectFailed,
            SetupError::BadConnection,
        ),
    ];
    for (before, failure, error) in failures {
        let mut optional = plan_of(&["a?", "b"]);
        let mut required = plan_of(&["a", "b"]);
        for outcome in &before {
            optional.advance(*outcome);
            required.advance(*outcome);
        }
        assert_eq!(optional.advance(failure), Action::LookUp { index: 1 });
        assert_eq!(required.advance(failure), Action::Fail { index: 0, error });
    }
}

#[test]
fn the_meter_has_one_channel_per_mapping() {
    let mut plan = plan_of(&["foo?", "bar"]);
    assert_eq!(plan.advance(Outcome::SourceMissing), Action::LookUp { index: 1 });
    assert_eq!(connect(&mut plan), Action::Done);
    assert_eq!(plan.channel_count(), 2);
    assert_eq!(plan.mapping_count(), 2);
    assert_eq!(plan.kept(), &vec![1]);
    assert_eq!(plan.level_index(0), 1);
    assert_eq!(plan.mapping(plan.level_index(0)).source, "bar");
    assert_eq!(plan.mapping(plan.level_index(0)).channel, 2);

    let mut reports = plan.silent_reports();
    assert_eq!(reports, vec![BlockPeak { channel: 1, peak: 0 }]);
    let mut agg = LevelAggregator::new(plan.channel_count());
    reports[0].peak = 950;
    agg.feed(&reports);
    let snapshot = agg.take_and_reset();
    // the channel of the mapping that was passed over is there and silent
    assert_eq!(snapshot, vec![0, 950]);
    assert_eq!(text_line(&snapshot), "0.000 0.950");
}

#[test]
fn reports_come_in_the_order_of_the_ports() {
    let mut plan = plan_of(&["a", "b?", "c", "d?"]);
    assert_eq!(connect(&mut plan), Action::LookUp { index: 1 });
    assert_eq!(plan.advance(Outcome::SourceMissing), Action::LookUp { index: 2 });
    assert_eq!(connect(&mut plan), Action::LookUp { index: 3 });
    plan.advance(Outcome::SourceFound { is_output: true });
    plan.advance(Outcome::Registered { same_type: true });
    assert_eq!(plan.advance(Outcome::ConnectFailed), Action::Done);
    assert_eq!(plan.channel_count(), 4);
    assert_eq!(plan.level_index(0), 0);
    assert_eq!(plan.level_index(1), 2);
    assert_eq!(plan.level_index(2), 3);
    assert_eq!(
        plan.silent_reports(),
        vec![
            BlockPeak { channel: 0, peak: 0 },
            BlockPeak { channel: 2, peak: 0 },
            BlockPeak { channel: 3, peak: 0 },
        ]
    );
    assert!(plan_of(&[]).silent_reports().is_empty());
}

#[test]
fn a_failed_connection_is_fatal_unless_optional() {
    let mut plan = plan_of(&["a?", "b"]);
    plan.advance(Outcome::SourceFound { is_output: true });
    plan.advance(Outcome::Registered { same_type: true });
    // the input port of an optional mapping stays in use
    assert_eq!(plan.advance(Outcome::ConnectFailed), Action::LookUp { index: 1 });
    assert_eq!(plan.kept(), &vec![0]);
    plan.advance(Outcome::SourceFound { is_output: true });
    plan.advance(Outcome::Registered { same_type: true });
    assert_eq!(
        plan.advance(Outcome::ConnectFailed),
        Action::Fail { index: 1, error: SetupError::BadConnection }
    );
    assert_eq!(plan.kept(), &vec![0]);
}

#[test]
fn an_answer_to_another_question_changes_nothing() {
    let mut plan = plan_of(&["a", "b"]);
    assert_eq!(plan.advance(Outcome::Connected), Action::LookUp { index: 0 });
    assert_eq!(plan.advance(Outcome::Registered { same_type: true }), Action::LookUp { index: 0 });
    assert_eq!(plan.advance(Outcome::RegisterFailed), Action::LookUp { index: 0 });
    plan.advance(Outcome::SourceFound { is_output: true });
    assert_eq!(plan.advance(Outcome::SourceMissing), Action::Register { index: 0 });
    assert_eq!(plan.advance(Outcome::ConnectFailed), Action::Register { index: 0 });
    plan.advance(Outcome::Registered { same_type: true });
    assert_eq!(
        plan.advance(Outcome::SourceFound { is_output: false }),
        Action::Connect { index: 0 }
    );
    assert!(plan.kept().is_empty());
}
