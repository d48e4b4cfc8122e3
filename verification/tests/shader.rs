use stock_renderer::error::{RenderError, ShaderStage};
use stock_renderer::shader::{
    build, check_link, check_stage, passthrough_source, position_attribute, report_of,
    solid_fill_source, DriverReport, ShaderProgram, ShaderSources,
};

fn rejected(log: Option<&str>) -> DriverReport {
    DriverReport::Failure { log: log.map(String::from) }
}

#[test]
fn a_compiled_stage_passes() {
    assert_eq!(check_stage(ShaderStage::Vertex, DriverReport::Success), Ok(()));
    assert_eq!(check_stage(ShaderStage::Fragment, DriverReport::Success), Ok(()));
}

#[test]
fn a_rejected_stage_carries_the_drivers_log() {
    assert_eq!(
        check_stage(ShaderStage::Fragment, rejected(Some("ERROR: 0:2: 'gl_FragColour' : undeclared identifier"))),
        Err(RenderError::ShaderCompileError {
            stage: ShaderStage::Fragment,
            log: String::from("ERROR: 0:2: 'gl_FragColour' : undeclared identifier"),
        })
    );
}

#[test]
fn a_rejected_stage_without_a_log_gets_the_generic_text() {
    let expected = Err(RenderError::ShaderCompileError {
        stage: ShaderStage::Vertex,
        log: String::from("Unknown error creating shader"),
    });
    assert_eq!(check_stage(ShaderStage::Vertex, rejected(None)), expected);
    assert_eq!(check_stage(ShaderStage::Vertex, rejected(Some(""))), expected);
}

#[test]
fn a_stage_without_an_object_fails() {
    assert_eq!(
        check_stage(ShaderStage::Fragment, DriverReport::NoObject),
        Err(RenderError::ShaderCompileError {
            stage: ShaderStage::Fragment,
            log: String::from("Unable to create shader object"),
        })
    );
}

#[test]
fn a_compile_error_never_has_an_empty_log() {
    for stage in [ShaderStage::Vertex, ShaderStage::Fragment] {
        for report in [DriverReport::NoObject, rejected(None), rejected(Some("")), rejected(Some("x"))] {
            match check_stage(stage, report) {
                Err(RenderError::ShaderCompileError { stage: s, log }) => {
                    assert_eq!(s, stage);
                    assert!(!log.is_empty());
                }
                other => panic!("{:?}", other),
            }
        }
    }
}

#[test]
fn a_failed_link_carries_the_drivers_log_unchanged() {
    assert_eq!(check_link(DriverReport::Success), Ok(()));
    assert_eq!(
        check_link(rejected(Some("varying mismatch"))),
        Err(RenderError::ProgramLinkError { log: String::from("varying mismatch") })
    );
    assert_eq!(
        check_link(rejected(Some(""))),
        Err(RenderError::ProgramLinkError { log: String::new() })
    );
}

#[test]
fn a_failed_link_without_a_log_gets_the_generic_text() {
    assert_eq!(
        check_link(rejected(None)),
        Err(RenderError::ProgramLinkError { log: String::from("Unknown error creating program object") })
    );
}

#[test]
fn a_link_without_a_program_object_fails() {
    assert_eq!(
        check_link(DriverReport::NoObject),
        Err(RenderError::ProgramLinkError { log: String::from("Unable to create shader object") })
    );
}

#[test]
fn only_the_status_true_is_a_success() {
    assert_eq!(report_of(true, Some(true), None), DriverReport::Success);
    assert_eq!(report_of(true, Some(true), Some(String::from("warning: unused"))), DriverReport::Success);
    assert_eq!(report_of(true, Some(false), None), rejected(None));
    assert_eq!(report_of(true, Some(false), Some(String::from("bad"))), rejected(Some("bad")));
    assert_eq!(report_of(true, Some(false), Some(String::new())), rejected(Some("")));
    assert_eq!(report_of(true, None, None), rejected(None));
    assert_eq!(report_of(true, None, Some(String::from("lost"))), rejected(Some("lost")));
}

#[test]
fn without_an_object_nothing_else_counts() {
    for status in [None, Some(false), Some(true)] {
        for log in [None, Some(String::new()), Some(String::from("x"))] {
            assert_eq!(report_of(false, status, log), DriverReport::NoObject);
        }
    }
}

#[test]
fn a_report_is_judged_as_the_driver_gave_it() {
    assert_eq!(
        check_stage(ShaderStage::Vertex, report_of(true, None, None)),
        Err(RenderError::ShaderCompileError {
            stage: ShaderStage::Vertex,
            log: String::from("Unknown error creating shader"),
        })
    );
    assert_eq!(
        check_link(report_of(true, Some(false), Some(String::from("ERROR: link")))),
        Err(RenderError::ProgramLinkError { log: String::from("ERROR: link") })
    );
    assert_eq!(check_link(report_of(true, Some(true), Some(String::from("note")))), Ok(()));
}

#[test]
fn a_build_keeps_the_attribute_location() {
    assert_eq!(
        build(DriverReport::Success, DriverReport::Success, DriverReport::Success, 5),
        Ok(ShaderProgram { position: 5 })
    );
    assert_eq!(
        build(DriverReport::Success, DriverReport::Success, DriverReport::Success, -1),
        Ok(ShaderProgram { position: -1 })
    );
}

#[test]
fn a_build_reports_the_first_failure() {
    assert_eq!(
        build(rejected(Some("v")), rejected(Some("f")), rejected(Some("l")), 0),
        Err(RenderError::ShaderCompileError { stage: ShaderStage::Vertex, log: String::from("v") })
    );
    assert_eq!(
        build(DriverReport::Success, rejected(Some("f")), rejected(Some("l")), 0),
        Err(RenderError::ShaderCompileError { stage: ShaderStage::Fragment, log: String::from("f") })
    );
    assert_eq!(
        build(DriverReport::Success, DriverReport::Success, rejected(Some("l")), 0),
        Err(RenderError::ProgramLinkError { log: String::from("l") })
    );
}

#[test]
fn the_default_sources() {
    assert_eq!(
        passthrough_source(),
        "attribute vec4 position;\nvoid main() {\n    gl_Position = position;\n}\n"
    );
    assert_eq!(
        solid_fill_source(),
        "void main() {\n    gl_FragColor = vec4(1.0, 0.0, 0.0, 1.0);\n}\n"
    );
    let sources = ShaderSources::defaults();
    assert_eq!(sources.vertex, passthrough_source());
    assert_eq!(sources.fragment, solid_fill_source());
    assert_eq!(position_attribute(), "position");
    assert!(sources.vertex.contains(position_attribute()));
}

#[test]
fn a_report_is_duplicated_faithfully() {
    for report in [DriverReport::NoObject, DriverReport::Success, rejected(None), rejected(Some("log"))] {
        assert_eq!(report.duplicate(), report);
    }
}
