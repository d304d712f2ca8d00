use rgbw_dashboard::commands::pio::{
    clean_build, conclude, get_pio_version, output_event, run_build, run_tests, run_upload,
    spawn_failed, validate_build_flag, validate_build_flags, validate_environment_name,
    validate_upload_port, version_info_of, wait_with_timeout, BuildEvent, CommandPlan,
    OperationKind, Waited, PIO_COMMAND_TIMEOUT_SECS,
};
use rgbw_dashboard::commands::serial::{DetectedPort, PortKind, PortScan};

fn strings(items: &[&str]) -> Vec<String> {
    items.iter().map(|s| s.to_string()).collect()
}

fn scan_of(names: &[&str]) -> PortScan {
    Ok(names
        .iter()
        .map(|n| DetectedPort { port_name: n.to_string(), kind: PortKind::Unknown })
        .collect())
}

fn env_of(plan: &CommandPlan) -> Vec<(&str, &str)> {
    plan.env.iter().map(|(k, v)| (k.as_str(), v.as_str())).collect()
}

fn show(event: &BuildEvent) -> String {
    match event {
        BuildEvent::Output { line } => format!("output:{}", line),
        BuildEvent::Error { message } => format!("error:{}", message),
        BuildEvent::Complete { success, duration_ms } => {
            format!("complete:{}:{}", success, duration_ms)
        }
        BuildEvent::Started { app_name, environment } => {
            format!("started:{}:{}", app_name, environment)
        }
    }
}

fn shown(events: &[BuildEvent]) -> Vec<String> {
    events.iter().map(show).collect()
}

#[test]
fn environment_names() {
    assert_eq!(validate_environment_name("esp32"), Ok(()));
    assert_eq!(validate_environment_name("esp32-dev_2"), Ok(()));
    assert_eq!(validate_environment_name(&"a".repeat(64)), Ok(()));
    assert_eq!(
        validate_environment_name("").unwrap_err(),
        "Environment name cannot be empty"
    );
    assert_eq!(
        validate_environment_name("  \n").unwrap_err(),
        "Environment name cannot be empty"
    );
    assert_eq!(
        validate_environment_name(&"a".repeat(65)).unwrap_err(),
        "Environment name too long (max 64 chars)"
    );
    assert_eq!(
        validate_environment_name("esp 32").unwrap_err(),
        "Environment name 'esp 32' contains invalid characters. Use only letters, numbers, underscore, hyphen."
    );
    assert_eq!(
        validate_environment_name("env;rm").unwrap_err(),
        "Environment name 'env;rm' contains invalid characters. Use only letters, numbers, underscore, hyphen."
    );
    assert!(validate_environment_name("naïve").is_err());
    // The length is taken in bytes, and taken before the characters are looked at.
    assert_eq!(
        validate_environment_name(&"é".repeat(33)).unwrap_err(),
        "Environment name too long (max 64 chars)"
    );
}

#[test]
fn flags_that_pass() {
    for flag in [
        "-DFOO",
        "-DFOO=1",
        "-D_x9=",
        "-DNAME=a b c",
        "-DURL=http://x/y?z=1",
        "-DA=B=C",
        "-DTEXT=gr\u{fc}\u{df} \u{a0}\u{2028}",
    ] {
        assert_eq!(validate_build_flag(flag), Ok(()), "{}", flag);
    }
    assert_eq!(validate_build_flags(&strings(&["-DFOO=1", "-DBAR"])), Ok(()));
    assert_eq!(validate_build_flags(&Vec::new()), Ok(()));
}

#[test]
fn flags_that_are_refused() {
    assert_eq!(
        validate_build_flag("FOO=1").unwrap_err(),
        "Invalid build flag (expected -D...): FOO=1"
    );
    assert_eq!(
        validate_build_flag("-d").unwrap_err(),
        "Invalid build flag (expected -D...): -d"
    );
    assert_eq!(
        validate_build_flag("").unwrap_err(),
        "Invalid build flag (expected -D...): "
    );
    assert_eq!(
        validate_build_flag("-D").unwrap_err(),
        "Invalid build flag (missing name): -D"
    );
    assert_eq!(
        validate_build_flag("-D=1").unwrap_err(),
        "Invalid build flag (missing name): -D=1"
    );
    assert_eq!(
        validate_build_flag("-D9FOO=1").unwrap_err(),
        "Invalid build flag name: -D9FOO=1"
    );
    assert_eq!(
        validate_build_flag("-DFOO BAR=1").unwrap_err(),
        "Invalid build flag name: -DFOO BAR=1"
    );
    assert_eq!(
        validate_build_flag("-DFOO-BAR").unwrap_err(),
        "Invalid build flag name: -DFOO-BAR"
    );
    assert_eq!(
        validate_build_flag("-DFOO=a\nb").unwrap_err(),
        "Build flag contains invalid characters: -DFOO=a\nb"
    );
    assert_eq!(
        validate_build_flag("-DFOO=a\rb").unwrap_err(),
        "Build flag contains invalid characters: -DFOO=a\rb"
    );
    assert_eq!(
        validate_build_flag("-DFOO=a\0b").unwrap_err(),
        "Build flag contains invalid characters: -DFOO=a\0b"
    );
    for meta in ['`', '$', ';', '|', '&', '<', '>'] {
        let flag = format!("-DFOO=a{}b", meta);
        assert_eq!(
            validate_build_flag(&flag).unwrap_err(),
            format!("Build flag contains forbidden characters: {}", flag)
        );
    }
    // The first flag that is refused is the one complained about.
    assert_eq!(
        validate_build_flags(&strings(&["-DOK=1", "BAD", "-D"])).unwrap_err(),
        "Invalid build flag (expected -D...): BAD"
    );
}

#[test]
fn control_characters_in_a_value_are_refused() {
    for control in [
        '\0', '\u{1}', '\t', '\n', '\r', '\u{1b}', '\u{1f}', '\u{7f}', '\u{80}', '\u{85}', '\u{9f}',
    ] {
        assert!(control.is_control());
        let flag = format!("-DFOO=a{}b", control);
        assert_eq!(
            validate_build_flag(&flag).unwrap_err(),
            format!("Build flag contains invalid characters: {}", flag)
        );
        assert!(run_build("app".to_string(), "esp32".to_string(), vec![flag]).is_err());
    }
    // The characters next to the two ranges pass.
    for plain in [' ', '~', '\u{a0}'] {
        assert!(!plain.is_control());
        assert_eq!(validate_build_flag(&format!("-DFOO=a{}b", plain)), Ok(()));
    }
    // A control character is complained about before a shell character.
    assert_eq!(
        validate_build_flag("-DFOO=$\u{1b}").unwrap_err(),
        "Build flag contains invalid characters: -DFOO=$\u{1b}"
    );
    assert_eq!(
        validate_build_flags(&strings(&["-DOK=1", "-DFOO=a\u{1b}b"])).unwrap_err(),
        "Build flag contains invalid characters: -DFOO=a\u{1b}b"
    );
}

#[test]
fn shell_injection_in_a_flag_is_rejected_and_nothing_is_launched() {
    let flags = strings(&["-DFOO=$(rm -rf /)"]);
    assert_eq!(
        validate_build_flags(&flags).unwrap_err(),
        "Build flag contains forbidden characters: -DFOO=$(rm -rf /)"
    );
    assert_eq!(
        run_build("app".to_string(), "esp32".to_string(), flags.clone()).unwrap_err(),
        "Build flag contains forbidden characters: -DFOO=$(rm -rf /)"
    );
    assert!(run_upload("app".to_string(), "esp32".to_string(), flags, None, &scan_of(&[])).is_err());
}

#[test]
fn a_flag_reaches_the_environment_byte_for_byte() {
    let launch = run_build("app".to_string(), "esp32".to_string(), strings(&["-DFOO=1"])).unwrap();
    assert_eq!(
        env_of(&launch.plan),
        vec![("PYTHONUNBUFFERED", "1"), ("PLATFORMIO_BUILD_FLAGS", "-DFOO=1")]
    );
    assert_eq!(launch.plan.args, strings(&["run", "-e", "esp32"]));
    assert_eq!(launch.kind, OperationKind::Build);
    assert_eq!(show(&launch.started), "started:app:esp32");
}

#[test]
fn several_flags_are_joined_by_spaces() {
    let launch = run_build(
        "app".to_string(),
        "esp32".to_string(),
        strings(&["-DFOO=1", "-DBAR", "-DNAME=a b"]),
    )
    .unwrap();
    assert_eq!(
        env_of(&launch.plan),
        vec![("PYTHONUNBUFFERED", "1"), ("PLATFORMIO_BUILD_FLAGS", "-DFOO=1 -DBAR -DNAME=a b")]
    );
}

#[test]
fn without_flags_the_variable_is_not_set() {
    let launch = run_build("app".to_string(), "native".to_string(), Vec::new()).unwrap();
    assert_eq!(env_of(&launch.plan), vec![("PYTHONUNBUFFERED", "1")]);
}

#[test]
fn build_checks_the_environment_before_the_flags() {
    assert_eq!(
        run_build("app".to_string(), "".to_string(), strings(&["BAD"])).unwrap_err(),
        "Environment name cannot be empty"
    );
    assert_eq!(
        run_build("app".to_string(), "ok".to_string(), strings(&["BAD"])).unwrap_err(),
        "Invalid build flag (expected -D...): BAD"
    );
}

#[test]
fn upload_ports() {
    let scan = scan_of(&["/dev/ttyUSB0"]);
    assert_eq!(validate_upload_port("/dev/ttyUSB0", &scan), Ok(()));
    assert_eq!(
        validate_upload_port(" ", &scan).unwrap_err(),
        "Upload port cannot be empty"
    );
    for bad in ["/dev/tty\nUSB0", "/dev/tty\rUSB0", "/dev/tty\0", "/dev/../x"] {
        assert_eq!(
            validate_upload_port(bad, &scan).unwrap_err(),
            "Upload port contains invalid characters"
        );
    }
    assert_eq!(
        validate_upload_port("/dev/ttyUSB9", &scan).unwrap_err(),
        "Invalid upload port: /dev/ttyUSB9. Please refresh ports and select a valid device."
    );
    let failed: PortScan = Err("no udev".to_string());
    assert_eq!(
        validate_upload_port("/dev/ttyUSB0", &failed).unwrap_err(),
        "Failed to list serial ports: no udev"
    );
}

#[test]
fn upload_plan_carries_flags_and_port() {
    let scan = scan_of(&["/dev/ttyUSB0"]);
    let launch = run_upload(
        "app".to_string(),
        "esp32".to_string(),
        strings(&["-DFOO=1"]),
        Some("/dev/ttyUSB0".to_string()),
        &scan,
    )
    .unwrap();
    assert_eq!(launch.kind, OperationKind::Upload);
    assert_eq!(launch.plan.args, strings(&["run", "-e", "esp32", "-t", "upload"]));
    assert_eq!(
        env_of(&launch.plan),
        vec![
            ("PYTHONUNBUFFERED", "1"),
            ("PLATFORMIO_BUILD_FLAGS", "-DFOO=1"),
            ("PLATFORMIO_UPLOAD_PORT", "/dev/ttyUSB0")
        ]
    );
    let launch =
        run_upload("app".to_string(), "esp32".to_string(), Vec::new(), None, &scan).unwrap();
    assert_eq!(env_of(&launch.plan), vec![("PYTHONUNBUFFERED", "1")]);
}

#[test]
fn upload_to_a_port_that_is_not_enumerable_is_refused() {
    let scan = scan_of(&["/dev/ttyUSB0"]);
    assert_eq!(
        run_upload(
            "app".to_string(),
            "esp32".to_string(),
            Vec::new(),
            Some("/dev/ttyACM3".to_string()),
            &scan
        )
        .unwrap_err(),
        "Invalid upload port: /dev/ttyACM3. Please refresh ports and select a valid device."
    );
    // Without a port, the listing is not looked at.
    let failed: PortScan = Err("no udev".to_string());
    assert!(run_upload("app".to_string(), "esp32".to_string(), Vec::new(), None, &failed).is_ok());
}

#[test]
fn test_plan() {
    let launch = run_tests("app".to_string(), "native".to_string()).unwrap();
    assert_eq!(launch.kind, OperationKind::Test);
    assert_eq!(launch.plan.args, strings(&["test", "-e", "native"]));
    assert_eq!(env_of(&launch.plan), vec![("PYTHONUNBUFFERED", "1")]);
    assert_eq!(show(&launch.started), "started:app:native");
    assert_eq!(
        run_tests("app".to_string(), "bad name".to_string()).unwrap_err(),
        "Environment name 'bad name' contains invalid characters. Use only letters, numbers, underscore, hyphen."
    );
}

#[test]
fn clean_plan_for_one_environment_or_all() {
    let launch = clean_build("app".to_string(), Some("esp32".to_string())).unwrap();
    assert_eq!(launch.kind, OperationKind::Clean);
    assert_eq!(launch.plan.args, strings(&["run", "-t", "clean", "-e", "esp32"]));
    assert_eq!(show(&launch.started), "started:app:esp32");
    let launch = clean_build("app".to_string(), None).unwrap();
    assert_eq!(launch.plan.args, strings(&["run", "-t", "clean"]));
    assert_eq!(show(&launch.started), "started:app:");
    assert_eq!(env_of(&launch.plan), vec![("PYTHONUNBUFFERED", "1")]);
    assert!(clean_build("app".to_string(), Some("".to_string())).is_err());
}

#[test]
fn output_lines_become_events() {
    assert_eq!(show(&output_event("Compiling main.cpp".to_string())), "output:Compiling main.cpp");
}

#[test]
fn only_a_process_whose_time_ran_out_is_killed() {
    let d = wait_with_timeout(Waited::Exited(true));
    assert!(!d.kill);
    assert_eq!(d.status, Ok(Some(true)));
    let d = wait_with_timeout(Waited::Exited(false));
    assert!(!d.kill);
    assert_eq!(d.status, Ok(Some(false)));
    let d = wait_with_timeout(Waited::Failed("no child".to_string()));
    assert!(!d.kill);
    assert_eq!(d.status, Err("Failed to wait for PlatformIO: no child".to_string()));
    let d = wait_with_timeout(Waited::Elapsed);
    assert!(d.kill);
    assert_eq!(d.status, Ok(None));
}

#[test]
fn an_exit_completes_with_its_success() {
    let c = conclude(OperationKind::Build, Some(true), 1234);
    assert_eq!(shown(&c.events), vec!["complete:true:1234".to_string()]);
    assert_eq!(c.result, Ok(true));
    // An exit without success is no failure of the call.
    let c = conclude(OperationKind::Upload, Some(false), 99);
    assert_eq!(shown(&c.events), vec!["complete:false:99".to_string()]);
    assert_eq!(c.result, Ok(false));
}

#[test]
fn a_timeout_ends_with_one_complete_without_success_and_fails_the_call() {
    assert_eq!(PIO_COMMAND_TIMEOUT_SECS, 600);
    for (kind, label) in [
        (OperationKind::Build, "Build"),
        (OperationKind::Upload, "Upload"),
        (OperationKind::Test, "Tests"),
        (OperationKind::Clean, "Clean"),
    ] {
        let message = format!("{} timed out after 600 seconds", label);
        let c = conclude(kind, None, 600_123);
        assert_eq!(
            shown(&c.events),
            vec![format!("error:{}", message), "complete:false:600123".to_string()]
        );
        assert_eq!(c.result, Err(message));
        let completes =
            c.events.iter().filter(|e| matches!(e, BuildEvent::Complete { .. })).count();
        assert_eq!(completes, 1);
    }
}

#[test]
fn only_clean_completes_when_the_process_could_not_be_started() {
    for kind in [OperationKind::Build, OperationKind::Upload, OperationKind::Test] {
        let c = spawn_failed(kind, "No such file or directory", 3);
        assert!(c.events.is_empty());
        assert_eq!(
            c.result,
            Err("Failed to start PlatformIO: No such file or directory".to_string())
        );
    }
    let c = spawn_failed(OperationKind::Clean, "No such file or directory", 3);
    assert_eq!(shown(&c.events), vec!["complete:false:3".to_string()]);
    assert_eq!(
        c.result,
        Err("Failed to start PlatformIO: No such file or directory".to_string())
    );
}

#[test]
fn version_information() {
    let info = get_pio_version(&b"PlatformIO Core, version 6.1.11\n".to_vec(), "/repo/.venv/bin/pio");
    assert_eq!(info.len(), 2);
    assert_eq!(
        info.get("version").map(String::as_str),
        Some("PlatformIO Core, version 6.1.11")
    );
    assert_eq!(info.get("path").map(String::as_str), Some("/repo/.venv/bin/pio"));
    let info = get_pio_version(&vec![b' ', 0xff, b'\n'], "p");
    assert_eq!(info.get("version").map(String::as_str), Some("\u{fffd}"));
    let info = version_info_of("  6.1  ", "p");
    assert_eq!(info.get("version").map(String::as_str), Some("6.1"));
}
