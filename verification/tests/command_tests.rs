use screen_share::errors::RecorderError;
use screen_share::interrupt::InterruptController;
use screen_share::lifecycle::{
    interpret_load_exit, interpret_unload_exit, module_load_command, module_unload_command,
};
use screen_share::recording::{plan_full_screen, plan_region, selector_command};

#[test]
fn module_load_command_shape() {
    let cmd = module_load_command();
    assert_eq!(
        cmd,
        vec![
            b"sudo".to_vec(),
            b"modprobe".to_vec(),
            b"v4l2loopback".to_vec(),
            b"exclusive_caps=1".to_vec(),
            b"card_label=VirtualVideoDevice".to_vec(),
        ]
    );
}

#[test]
fn module_unload_command_shape() {
    let cmd = module_unload_command();
    assert_eq!(
        cmd,
        vec![b"sudo".to_vec(), b"rmmod".to_vec(), b"v4l2loopback".to_vec()]
    );
}

#[test]
fn load_exit_interpretation() {
    assert_eq!(interpret_load_exit(true, Some(0)), Ok(()));
    assert_eq!(
        interpret_load_exit(false, Some(1)),
        Err(RecorderError::ModuleLoadFailure { exit_code: Some(1) })
    );
    assert_eq!(
        interpret_load_exit(false, None),
        Err(RecorderError::ModuleLoadFailure { exit_code: None })
    );
}

#[test]
fn unload_exit_interpretation() {
    assert_eq!(interpret_unload_exit(true, Some(0)), Ok(()));
    assert_eq!(
        interpret_unload_exit(false, Some(2)),
        Err(RecorderError::ModuleUnloadFailure { exit_code: Some(2) })
    );
}

#[test]
fn second_load_exit_code_is_surfaced_unmasked() {
    let first = interpret_load_exit(true, Some(0));
    assert_eq!(first, Ok(()));
    let second = interpret_load_exit(false, Some(1));
    assert_eq!(
        second,
        Err(RecorderError::ModuleLoadFailure { exit_code: Some(1) })
    );
}

#[test]
fn full_screen_command_shape() {
    let cmd = plan_full_screen(b"--file=/dev/video3");
    assert_eq!(
        cmd,
        vec![
            b"wf-recorder".to_vec(),
            b"--muxer=v4l2".to_vec(),
            b"--codec=rawvideo".to_vec(),
            b"--file=/dev/video3".to_vec(),
            b"-x".to_vec(),
            b"yuv420p".to_vec(),
        ]
    );
}

#[test]
fn region_command_trims_geometry() {
    let cmd = plan_region(true, Some(0), b"10,20 300x400\n", b"--file=/dev/video3")
        .expect("selector succeeded");
    assert_eq!(
        cmd,
        vec![
            b"wf-recorder".to_vec(),
            b"-g".to_vec(),
            b"10,20 300x400".to_vec(),
            b"--muxer=v4l2".to_vec(),
            b"--codec=rawvideo".to_vec(),
            b"--file=/dev/video3".to_vec(),
            b"-x".to_vec(),
            b"yuv420p".to_vec(),
        ]
    );
}

#[test]
fn failed_selector_never_yields_recorder_command() {
    let plan = plan_region(false, Some(1), b"", b"--file=/dev/video3");
    assert_eq!(
        plan,
        Err(RecorderError::RegionSelectionFailed { exit_code: Some(1) })
    );
}

#[test]
fn selector_command_shape() {
    assert_eq!(selector_command(), vec![b"slurp".to_vec()]);
}

#[test]
fn interrupt_unloads_iff_flag_set() {
    let mut armed = InterruptController::new(true);
    assert!(!armed.handled);
    assert!(armed.on_interrupt());
    assert!(armed.handled);

    let mut without_unload = InterruptController::new(false);
    assert!(!without_unload.on_interrupt());
    assert!(without_unload.handled);
}

#[test]
fn error_messages() {
    assert_eq!(
        RecorderError::DiscoveryTimeout.message(),
        "Max retries reached. Exiting code."
    );
    assert_eq!(
        RecorderError::ModuleLoadFailure { exit_code: Some(1) }.message(),
        "Could not load modules. Are they installed?"
    );
    assert_eq!(
        RecorderError::ModuleUnloadFailure { exit_code: None }.message(),
        "Could not unload module."
    );
    assert_eq!(
        RecorderError::RegionSelectionFailed { exit_code: Some(1) }.message(),
        "Region selection failed."
    );
}
