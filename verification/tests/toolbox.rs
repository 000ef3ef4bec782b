use bcvk_toolbox::{
    detect, host_path, is_missing_bind_source, parse_containerenv, with_hint_for,
    with_podman_failure_hint, DevContainer, Environment, FailureStep, DOCS_URL,
};
use camino::Utf8PathBuf;
use color_eyre::eyre::Report;

const TOOLBOX_CONTAINERENV: &str = r#"engine="podman-5.6.1"
name="fedora-toolbox-43"
id="0123abcd"
image="registry.fedoraproject.org/fedora-toolbox:43"
imageid="4567ef"
rootless=1
"#;
const DISTROBOX_CONTAINERENV: &str = r#"engine="podman-5.6.1"
name="my-distrobox"
id="0123abcd"
image="quay.io/toolbx/arch-toolbox:latest"
imageid="4567ef"
rootless=1
"#;
const PLAIN_CONTAINERENV: &str = r#"engine="podman-5.6.1"
name="devcontainer"
id="0123abcd"
image="ghcr.io/bootc-dev/devenv-debian:latest"
imageid="4567ef"
rootless=1
"#;

#[test]
fn test_detect() {
    let cases = [
        ("host", Environment::default(), None),
        (
            "toolboxenv",
            Environment {
                toolboxenv: true,
                containerenv: Some(TOOLBOX_CONTAINERENV),
                ..Default::default()
            },
            Some(DevContainer::Toolbox),
        ),
        (
            "TOOLBOX_PATH",
            Environment {
                toolbox_path: true,
                ..Default::default()
            },
            Some(DevContainer::Toolbox),
        ),
        (
            "toolbox image name only",
            Environment {
                containerenv: Some(TOOLBOX_CONTAINERENV),
                ..Default::default()
            },
            Some(DevContainer::Toolbox),
        ),
        (
            "distrobox CONTAINER_ID",
            Environment {
                containerenv: Some(DISTROBOX_CONTAINERENV),
                container_id: true,
                ..Default::default()
            },
            Some(DevContainer::Distrobox),
        ),
        (
            "distrobox name wins over toolbox image",
            Environment {
                containerenv: Some(DISTROBOX_CONTAINERENV),
                ..Default::default()
            },
            Some(DevContainer::Distrobox),
        ),
        (
            "CONTAINER_ID outside a container",
            Environment {
                container_id: true,
                ..Default::default()
            },
            None,
        ),
        (
            "other podman container",
            Environment {
                containerenv: Some(PLAIN_CONTAINERENV),
                ..Default::default()
            },
            None,
        ),
        (
            "empty containerenv",
            Environment {
                containerenv: Some(""),
                ..Default::default()
            },
            None,
        ),
    ];
    for (desc, env, expected) in cases {
        assert_eq!(detect(&env), expected, "{desc}");
    }
}

#[test]
fn test_with_hint_for() {
    const STATFS: &str = "Error: statfs /usr/bin/bcvk: no such file or directory\n";
    const OTHER: &str = "Error: short-name resolution enforced\n";
    let cases = [
        (Some(DevContainer::Toolbox), STATFS, true),
        (Some(DevContainer::Distrobox), STATFS, true),
        (None, STATFS, false),
        (Some(DevContainer::Toolbox), OTHER, false),
        (Some(DevContainer::Toolbox), "", false),
    ];
    for (kind, stderr, hinted) in cases {
        let msg = format!("Podman command failed: {stderr}");
        let r = with_hint_for(kind, Report::msg(msg.clone()), stderr);
        let chain: Vec<String> = r.chain().map(|e| e.to_string()).collect();
        if hinted {
            let kind = kind.unwrap().to_string();
            assert_eq!(chain.len(), 2, "{kind} {stderr:?}");
            assert!(
                chain[0].contains(&format!("inside a {kind} container")),
                "{chain:?}"
            );
            assert!(chain[0].contains(DOCS_URL), "{chain:?}");
            // The original podman error is kept as the cause.
            assert_eq!(chain[1], msg);
        } else {
            assert_eq!(chain, [msg], "{kind:?} {stderr:?}");
        }
    }
}

#[test]
fn test_host_path() {
    for (input, expected) in [
        ("/usr/bin/bcvk", "/run/host/usr/bin/bcvk"),
        (
            "/var/home/user/.cargo/bin/bcvk",
            "/run/host/var/home/user/.cargo/bin/bcvk",
        ),
    ] {
        assert_eq!(Utf8PathBuf::from(host_path(input)), expected);
        assert_eq!(host_path(input), expected);
    }
}

#[test]
fn host_path_of_unusual_paths() {
    for (input, expected) in [
        ("/", "/run/host"),
        ("", "/run/host"),
        ("//usr/./bin//bcvk/", "/run/host/usr/bin/bcvk"),
        ("/./bcvk", "/run/host/bcvk"),
        ("/usr/../bcvk", "/run/host/usr/../bcvk"),
        ("bin/bcvk", "/run/host/bin/bcvk"),
        ("./bcvk", "/run/host/bcvk"),
        (".", "/run/host"),
        ("..", "/run/host/.."),
        ("/.bcvk", "/run/host/.bcvk"),
    ] {
        assert_eq!(Utf8PathBuf::from(host_path(input)), expected, "{input:?}");
    }
}

#[test]
fn containerenv_is_parsed() {
    assert_eq!(
        parse_containerenv(TOOLBOX_CONTAINERENV),
        [
            ("engine", "podman-5.6.1"),
            ("name", "fedora-toolbox-43"),
            ("id", "0123abcd"),
            ("image", "registry.fedoraproject.org/fedora-toolbox:43"),
            ("imageid", "4567ef"),
            ("rootless", "1"),
        ]
    );
    assert_eq!(parse_containerenv(""), []);
    assert_eq!(parse_containerenv("no entry\n\n=\r\n"), [("", "")]);
    assert_eq!(
        parse_containerenv(" a\t=  \"x = y\"  \r\nb=\"\"\"q\"\nc=\u{a0}\" z \"\u{3000}"),
        [("a", "x = y"), ("b", "q"), ("c", " z ")]
    );
}

#[test]
fn only_name_and_image_are_hints() {
    let kind = |contents| {
        detect(&Environment {
            containerenv: Some(contents),
            ..Default::default()
        })
    };
    assert_eq!(kind("engine=\"toolbox\"\nid=\"distrobox\"\n"), None);
    assert_eq!(kind("names=\"toolbox\"\nName=\"toolbox\"\n"), None);
    assert_eq!(kind("name=\"toolbo\"\nimage=\"x\"\n"), None);
    assert_eq!(kind("# toolbox\nname = toolbox\r\n"), Some(DevContainer::Toolbox));
    assert_eq!(
        kind("name=\"toolbox\"\nimage=\"distrobox\""),
        Some(DevContainer::Distrobox)
    );
}

#[test]
fn missing_bind_source_needs_both_parts_on_a_line() {
    assert!(is_missing_bind_source(
        "Trying to pull\r\nError: statfs /x: no such file or directory\r\nbye"
    ));
    assert!(is_missing_bind_source("statfs no such file or directory"));
    assert!(!is_missing_bind_source("Error: statfs /x:\nno such file or directory\n"));
    assert!(!is_missing_bind_source("statfs\nError: no such file or directory"));
    assert!(!is_missing_bind_source("Error: statfs /x: permission denied\n"));
    assert!(!is_missing_bind_source("Error: stat /x: no such file or directory\n"));
    assert!(!is_missing_bind_source(""));
}

#[test]
fn guidance_is_exact() {
    let stderr = "Error: statfs /x: no such file or directory";
    for (kind, word) in [
        (DevContainer::Toolbox, "toolbox"),
        (DevContainer::Distrobox, "distrobox"),
    ] {
        assert_eq!(kind.to_string(), word);
        assert_eq!(kind.as_str(), word);
        let err = Report::msg("deepest").wrap_err("middle");
        let chain: Vec<String> = with_hint_for(Some(kind), err, stderr)
            .chain()
            .map(|e| e.to_string())
            .collect();
        let expected = format!(
            "bcvk is running inside a {word} container, and podman could not find a path \
             it was asked to bind-mount. If podman is forwarded to the host, the bcvk binary \
             and any bind mount sources must exist at the same path on the host, not just in \
             this container.\n\
             \n\
             Consider installing bcvk on the host alongside podman and QEMU (e.g. \
             `sudo dnf install bcvk`, or add it to your image on image-based systems) and \
             running it there; from a {word} you can use `flatpak-spawn --host bcvk ...`.\n\
             See https://github.com/bootc-dev/bcvk/blob/main/docs/src/installation.md#toolbox-and-distrobox"
        );
        assert_eq!(chain, [expected.as_str(), "middle", "deepest"]);
    }
}

#[test]
fn container_is_looked_for_only_if_needed() {
    let step = with_podman_failure_hint(Report::msg("e"), "Error: statfs a: no such file or directory");
    match step {
        FailureStep::Detect(err) => assert_eq!(err.to_string(), "e"),
        FailureStep::Done(_) => panic!("no look at the container"),
    }
    let step = with_podman_failure_hint(Report::msg("e"), "Error: other\n");
    match step {
        FailureStep::Done(err) => {
            assert_eq!(err.to_string(), "e");
            // Looking first would have given the same.
            let r = with_hint_for(Some(DevContainer::Toolbox), err, "Error: other\n");
            assert_eq!(r.chain().count(), 1);
        }
        FailureStep::Detect(_) => panic!("needless look at the container"),
    }
}
