use screen_dump::ax::attributes;
use screen_dump::ax::{
    attribute_copy_outcome, ax_error_description, ax_error_name, check, collect_values,
    ensure_trusted, expect_type, focused_application_step, focused_window_outcome, ok_value,
    require_value, window_id_outcome, AxAttribute, AxErrorDisplay, AxErrorKind, FocusStep,
    AX_CANNOT_COMPLETE, AX_FAILURE, AX_NO_VALUE, AX_SUCCESS,
};

#[test]
fn typed_attributes_keep_native_names() {
    assert_eq!(attributes::title().name(), "AXTitle");
    assert_eq!(attributes::window_number().name(), "AXWindowNumber");
}

#[test]
fn unknown_ax_error_names_remain_visible() {
    assert_eq!(ax_error_name(-32000), "kAXErrorUnknown");
}

#[test]
fn every_attribute_keeps_its_native_name() {
    assert_eq!(attributes::role().name(), "AXRole");
    assert_eq!(attributes::subrole().name(), "AXSubrole");
    assert_eq!(attributes::windows::<u8>().name(), "AXWindows");
    assert_eq!(attributes::focused_application::<u8>().name(), "AXFocusedApplication");
    assert_eq!(attributes::focused_window::<u8>().name(), "AXFocusedWindow");
    assert_eq!(attributes::position::<u8>().name(), "AXPosition");
    assert_eq!(attributes::size::<u8>().name(), "AXSize");
    assert_eq!(attributes::minimized().name(), "AXMinimized");
    assert_eq!(attributes::main().name(), "AXMain");
    let custom: AxAttribute<bool> = AxAttribute::new("AXCustom");
    let copy = custom;
    assert_eq!(copy.name(), "AXCustom");
    assert_eq!(custom.clone().name(), "AXCustom");
}

#[test]
fn known_error_codes_have_names_and_descriptions() {
    assert_eq!(ax_error_name(0), "kAXErrorSuccess");
    assert_eq!(ax_error_name(-25204), "kAXErrorCannotComplete");
    assert_eq!(ax_error_name(-25212), "kAXErrorNoValue");
    assert_eq!(ax_error_name(-25214), "kAXErrorNotEnoughPrecision");
    assert_eq!(ax_error_name(-25209), "kAXErrorUnknown");
    assert_eq!(ax_error_description(-25211), "the accessibility API is disabled");
    assert_eq!(ax_error_description(7), "an unknown accessibility error occurred");
}

#[test]
fn error_display_shows_name_code_and_description() {
    assert_eq!(
        AxErrorDisplay(-25204).to_text(),
        "kAXErrorCannotComplete (-25204): messaging failed or the target application is busy"
    );
    assert_eq!(AxErrorDisplay(0).to_text(), "kAXErrorSuccess (0): no error occurred");
    assert_eq!(
        AxErrorDisplay(i32::MIN).to_text(),
        "kAXErrorUnknown (-2147483648): an unknown accessibility error occurred"
    );
}

#[test]
fn error_messages() {
    assert_eq!(
        AxErrorKind::Ax(AxErrorDisplay(-25200)).message(),
        "AX operation failed: kAXErrorFailure (-25200): a system error occurred"
    );
    assert_eq!(
        AxErrorKind::UnexpectedNull.message(),
        "AX returned success but returned a null pointer"
    );
    assert_eq!(
        AxErrorKind::TypeMismatch { expected: "CFString" }.message(),
        "AX value had the wrong type; expected CFString"
    );
    assert_eq!(AxErrorKind::MissingValue("AXTitle").message(), "AX attribute AXTitle has no value");
    assert_eq!(
        AxErrorKind::NotTrusted.message(),
        "Accessibility permission has not been granted"
    );
}

#[test]
fn check_accepts_only_success() {
    assert!(check(AX_SUCCESS).is_ok());
    assert!(matches!(check(AX_FAILURE), Err(AxErrorKind::Ax(AxErrorDisplay(-25200)))));
}

#[test]
fn copy_outcomes() {
    assert!(matches!(attribute_copy_outcome(AX_NO_VALUE, false), Ok(false)));
    assert!(matches!(attribute_copy_outcome(AX_SUCCESS, true), Ok(true)));
    assert!(matches!(attribute_copy_outcome(AX_SUCCESS, false), Err(AxErrorKind::UnexpectedNull)));
    assert!(matches!(
        attribute_copy_outcome(AX_CANNOT_COMPLETE, true),
        Err(AxErrorKind::Ax(AxErrorDisplay(-25204)))
    ));
}

#[test]
fn window_id_outcomes() {
    assert!(matches!(window_id_outcome(AX_SUCCESS, 42), Ok(Some(42))));
    assert!(matches!(window_id_outcome(AX_SUCCESS, 0), Ok(None)));
    assert!(matches!(window_id_outcome(AX_FAILURE, 42), Err(AxErrorKind::Ax(AxErrorDisplay(-25200)))));
}

#[test]
fn required_values() {
    assert!(matches!(require_value(Ok(Some(true)), attributes::main()), Ok(true)));
    assert!(matches!(
        require_value(Ok(None), attributes::main()),
        Err(AxErrorKind::MissingValue("AXMain"))
    ));
    assert!(matches!(
        require_value::<bool>(Err(AxErrorKind::NotTrusted), attributes::main()),
        Err(AxErrorKind::NotTrusted)
    ));
}

#[test]
fn busy_system_falls_back_to_frontmost_application() {
    let busy: Result<Option<u8>, AxErrorKind> = Err(AxErrorKind::Ax(AxErrorDisplay(AX_CANNOT_COMPLETE)));
    assert!(matches!(focused_application_step(busy), FocusStep::UseFrontmost));
    assert!(matches!(focused_application_step(Ok(Some(3u8))), FocusStep::Done(Ok(Some(3)))));
    let failed: Result<Option<u8>, AxErrorKind> = Err(AxErrorKind::Ax(AxErrorDisplay(AX_FAILURE)));
    assert!(matches!(
        focused_application_step(failed),
        FocusStep::Done(Err(AxErrorKind::Ax(AxErrorDisplay(-25200))))
    ));
}

#[test]
fn busy_application_has_no_focused_window() {
    let busy: Result<Option<u8>, AxErrorKind> = Err(AxErrorKind::Ax(AxErrorDisplay(AX_CANNOT_COMPLETE)));
    assert!(matches!(focused_window_outcome(busy), Ok(None)));
    assert!(matches!(focused_window_outcome(Ok(Some(5u8))), Ok(Some(5))));
    assert!(matches!(
        focused_window_outcome::<u8>(Err(AxErrorKind::UnexpectedNull)),
        Err(AxErrorKind::UnexpectedNull)
    ));
}

#[test]
fn ok_value_drops_errors() {
    assert_eq!(ok_value(Ok(Some(1u32))), Some(1));
    assert_eq!(ok_value::<u32>(Err(AxErrorKind::NotTrusted)), None);
}

#[test]
fn trust_is_required() {
    assert!(ensure_trusted(true).is_ok());
    assert!(matches!(ensure_trusted(false), Err(AxErrorKind::NotTrusted)));
}

#[test]
fn type_mismatch_names_the_expected_type() {
    assert!(matches!(expect_type(Some(4i64), "CFNumber"), Ok(4)));
    assert!(matches!(
        expect_type::<i64>(None, "CFNumber"),
        Err(AxErrorKind::TypeMismatch { expected: "CFNumber" })
    ));
}

#[test]
fn collected_values_stop_at_the_first_failure() {
    let all: Vec<Result<u8, AxErrorKind>> = vec![Ok(1), Ok(2), Ok(3)];
    assert_eq!(collect_values(all).ok(), Some(vec![1, 2, 3]));
    let some: Vec<Result<u8, AxErrorKind>> = vec![
        Ok(1),
        Err(AxErrorKind::TypeMismatch { expected: "CFString" }),
        Err(AxErrorKind::UnexpectedNull),
    ];
    assert!(matches!(
        collect_values(some),
        Err(AxErrorKind::TypeMismatch { expected: "CFString" })
    ));
    let none: Vec<Result<u8, AxErrorKind>> = vec![];
    assert_eq!(collect_values(none).ok(), Some(vec![]));
}
