use bcvk_toolbox::{
    detect, detect_current, detection_line, log_self_exe_hint, DevContainer, HostProbe, IoFailure, Level, LogLine,
    ProbeStep, Probes, CONTAINERENV_PATH, DISTROBOX_CONTAINER_ID_ENV, HOST_ROOT, TOOLBOXENV_PATH,
    TOOLBOX_PATH_ENV,
};

fn failure(not_found: bool, message: &str) -> IoFailure {
    IoFailure {
        not_found,
        message: message.to_owned(),
    }
}

fn said(lines: Vec<LogLine>) -> Vec<(Level, String)> {
    lines.into_iter().map(|l| (l.level, l.message)).collect()
}

fn probe() -> HostProbe {
    log_self_exe_hint(Some(DevContainer::Toolbox), "/usr/bin/bcvk").unwrap()
}

fn logged(step: ProbeStep) -> (Level, String) {
    match step {
        ProbeStep::Log(line) => (line.level, line.message),
        ProbeStep::CheckHostRoot(_) => panic!("another question"),
    }
}

#[test]
fn places_to_look_at() {
    assert_eq!(TOOLBOXENV_PATH, "/run/.toolboxenv");
    assert_eq!(CONTAINERENV_PATH, "/run/.containerenv");
    assert_eq!(TOOLBOX_PATH_ENV, "TOOLBOX_PATH");
    assert_eq!(DISTROBOX_CONTAINER_ID_ENV, "CONTAINER_ID");
    assert_eq!(HOST_ROOT, "/run/host");
}

#[test]
fn failed_looks_see_nothing() {
    let failed = Probes {
        toolboxenv: Err(failure(false, "denied")),
        containerenv: Err(failure(false, "broken")),
        toolbox_path: false,
        container_id: true,
    };
    assert_eq!(detect_current(&failed, "env").kind, None);
    assert_eq!(
        said(failed.failure_lines()),
        [
            (Level::Debug, "Checking for /run/.toolboxenv: denied".to_owned()),
            (Level::Debug, "Reading /run/.containerenv: broken".to_owned()),
        ]
    );

    let absent = Probes {
        toolboxenv: Ok(false),
        containerenv: Err(failure(true, "no such file")),
        toolbox_path: true,
        container_id: false,
    };
    assert_eq!(detect_current(&absent, "env").kind, Some(DevContainer::Toolbox));
    assert_eq!(said(absent.failure_lines()), []);
}

#[test]
fn detection_is_logged() {
    for (kind, message) in [
        (None, "Development container detection: None from e"),
        (
            Some(DevContainer::Toolbox),
            "Development container detection: Some(Toolbox) from e",
        ),
        (
            Some(DevContainer::Distrobox),
            "Development container detection: Some(Distrobox) from e",
        ),
    ] {
        let line = detection_line(kind, "e");
        assert_eq!((line.level, line.message.as_str()), (Level::Debug, message));
        assert_eq!(
            line.message,
            format!("Development container detection: {kind:?} from e")
        );
    }

    let probes = Probes {
        toolboxenv: Err(failure(true, "denied")),
        containerenv: Err(failure(false, "broken")),
        toolbox_path: true,
        container_id: false,
    };
    let env = format!("{:?}", probes.environment());
    assert_eq!(
        said(detect_current(&probes, &env).log),
        [
            (Level::Debug, "Checking for /run/.toolboxenv: denied".to_owned()),
            (Level::Debug, "Reading /run/.containerenv: broken".to_owned()),
            (
                Level::Debug,
                "Development container detection: Some(Toolbox) from Environment { \
                 toolboxenv: false, containerenv: None, toolbox_path: true, \
                 container_id: false }"
                    .to_owned()
            ),
        ]
    );

    let quiet = Probes {
        toolboxenv: Ok(false),
        containerenv: Err(failure(true, "no such file")),
        toolbox_path: false,
        container_id: true,
    };
    assert_eq!(
        said(detect_current(&quiet, "e").log),
        [(
            Level::Debug,
            "Development container detection: None from e".to_owned()
        )]
    );
}

#[test]
fn looks_are_handed_on() {
    let probes = Probes {
        toolboxenv: Ok(false),
        containerenv: Ok("name=\"a-toolbox\"\n".to_owned()),
        toolbox_path: false,
        container_id: false,
    };
    let env = probes.environment();
    assert!(!env.toolboxenv && !env.toolbox_path && !env.container_id);
    assert_eq!(env.containerenv, Some("name=\"a-toolbox\"\n"));
    assert_eq!(detect(&env), Some(DevContainer::Toolbox));
    assert_eq!(detect_current(&probes, "env").kind, Some(DevContainer::Toolbox));
    assert_eq!(said(probes.failure_lines()), []);

    let probes = Probes {
        toolboxenv: Ok(true),
        ..probes
    };
    assert!(probes.environment().toolboxenv);
    let probes = Probes {
        toolboxenv: Ok(false),
        container_id: true,
        ..probes
    };
    assert_eq!(detect_current(&probes, "env").kind, Some(DevContainer::Distrobox));
}

#[test]
fn nothing_to_ask_outside_containers() {
    assert!(log_self_exe_hint(None, "/usr/bin/bcvk").is_none());
}

#[test]
fn binary_is_looked_for_on_the_host() {
    let p = log_self_exe_hint(Some(DevContainer::Distrobox), "/opt/bcvk").unwrap();
    assert_eq!(p.kind, DevContainer::Distrobox);
    assert_eq!(p.self_exe, "/opt/bcvk");
    assert_eq!(p.on_host, "/run/host/opt/bcvk");
}

#[test]
fn binary_on_the_host() {
    assert_eq!(
        logged(probe().exists_checked(Ok(true))),
        (
            Level::Debug,
            "Running in a toolbox; /usr/bin/bcvk also exists on the host".to_owned()
        )
    );
}

#[test]
fn host_cannot_be_asked() {
    assert_eq!(
        logged(probe().exists_checked(Err(failure(true, "oops")))),
        (
            Level::Debug,
            "Checking for /run/host/usr/bin/bcvk: oops".to_owned()
        )
    );
}

#[test]
fn binary_not_on_the_host() {
    for is_dir in [true, false] {
        let later = match probe().exists_checked(Ok(false)) {
            ProbeStep::CheckHostRoot(later) => later,
            ProbeStep::Log(_) => panic!("too early"),
        };
        let line = later.host_root_checked(is_dir);
        if is_dir {
            assert_eq!(line.level, Level::Info);
            assert_eq!(
                line.message,
                "Running in a toolbox, and /usr/bin/bcvk is not present on the host; \
                 this will fail if podman is forwarded to the host. See \
                 https://github.com/bootc-dev/bcvk/blob/main/docs/src/installation.md#toolbox-and-distrobox"
            );
        } else {
            assert_eq!(line.level, Level::Debug);
            assert_eq!(
                line.message,
                "Running in a toolbox without /run/host; can't check the host"
            );
        }
    }
}
