use bcvk_toolbox::{
    detect, is_missing_bind_source, parse_containerenv, with_hint_for, DevContainer, Environment,
};
use color_eyre::eyre::Report;

const CONTENTS: [&str; 4] = [
    "",
    "name=\"my-toolbox\"\n",
    "image=\"distrobox\"",
    "engine=\"podman\"\nname=\"x\"\r\n",
];

#[test]
fn toolbox_marks_decide() {
    for contents in CONTENTS {
        for container_id in [false, true] {
            for (toolboxenv, toolbox_path) in [(true, false), (false, true), (true, true)] {
                let env = Environment {
                    toolboxenv,
                    containerenv: Some(contents),
                    toolbox_path,
                    container_id,
                };
                assert_eq!(detect(&env), Some(DevContainer::Toolbox));
            }
        }
    }
}

#[test]
fn nothing_outside_containers() {
    for container_id in [false, true] {
        let env = Environment {
            container_id,
            ..Default::default()
        };
        assert_eq!(detect(&env), None);
    }
}

#[test]
fn distrobox_before_toolbox_names() {
    for contents in CONTENTS {
        let named = format!("name=\"distrobox\"\n{contents}");
        for (containerenv, container_id) in [(contents, true), (named.as_str(), false)] {
            let env = Environment {
                containerenv: Some(containerenv),
                container_id,
                ..Default::default()
            };
            assert_eq!(detect(&env), Some(DevContainer::Distrobox));
        }
    }
}

#[test]
fn entries_line_by_line() {
    for a in CONTENTS {
        for b in CONTENTS {
            let whole = format!("{a}\n{b}");
            let mut parts = parse_containerenv(a);
            parts.extend(parse_containerenv(b));
            assert_eq!(parse_containerenv(&whole), parts);
        }
    }
}

#[test]
fn other_lines_do_not_count() {
    let others = "engine=\"toolbox\"\r\n\nid=distrobox\ntoolbox";
    for contents in CONTENTS {
        let kind = |contents: &str| {
            detect(&Environment {
                containerenv: Some(contents),
                ..Default::default()
            })
        };
        assert_eq!(kind(&format!("{contents}\n{others}")), kind(contents));
        assert_eq!(kind(&format!("{others}\n{contents}")), kind(contents));
    }
}

#[test]
fn output_line_by_line() {
    let outputs = [
        "",
        "statfs /a: no such file or directory",
        "Error: statfs \r\n",
        "no such file or directory\r",
    ];
    for a in outputs {
        for b in outputs {
            assert_eq!(
                is_missing_bind_source(&format!("{a}\n{b}")),
                is_missing_bind_source(a) || is_missing_bind_source(b)
            );
        }
    }
}

#[test]
fn written_entries_read_back() {
    let entries = [
        ("name", "my box"),
        ("empty", ""),
        ("a b", " x=y \r"),
        ("", "\u{1f9f0}\"in\"side"),
    ];
    let mut written = String::new();
    for (key, value) in entries {
        written.push_str(&format!("{key}=\"{value}\"\n"));
    }
    assert_eq!(parse_containerenv(&written), entries);
}

#[test]
fn bare_value_read_back() {
    for (key, value) in [("rootless", "1"), ("k", ""), ("", "a=\"b\"c")] {
        assert_eq!(parse_containerenv(&format!("{key}={value}\n")), [(key, value)]);
    }
}

#[test]
fn hint_when() {
    let missing = "statfs /a: no such file or directory\n";
    for kind in [None, Some(DevContainer::Toolbox), Some(DevContainer::Distrobox)] {
        for stderr in [missing, "Error\n"] {
            let r = with_hint_for(kind, Report::msg("e"), stderr);
            let hinted = r.chain().count() == 2;
            assert_eq!(hinted, kind.is_some() && is_missing_bind_source(stderr));
            assert_eq!(r.root_cause().to_string(), "e");
        }
    }
}
