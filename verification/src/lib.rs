//! Detect running inside a toolbox or distrobox container, to help explain
//! podman failures there.
//!
//! bcvk is designed to be installed on the host, as a peer of podman: to
//! launch a VM it asks podman to bind-mount its own binary and the host's
//! `/usr` (for QEMU) into a new container. From a toolbox or distrobox,
//! `podman` is often forwarded to the host (via a `flatpak-spawn --host`
//! wrapper or the podman socket), so those paths are resolved on the host
//! rather than in the container bcvk runs in. If e.g. bcvk itself only exists
//! inside the container, podman then fails with an obscure
//! `statfs /usr/bin/bcvk: no such file or directory`.
//!
//! Running podman inside the toolbox is legitimate too, and a forwarding
//! wrapper can't be reliably told apart from it, so nothing here refuses to
//! run; it only adds guidance when podman fails in the characteristic way.
//!
//! See <https://github.com/bootc-dev/bcvk/issues/5>.
//!
//! Nothing in this library touches the filesystem or the environment. Where an
//! answer from there is needed, a function says what to ask, and another takes
//! the answer.

pub mod container;
pub mod detection_laws;
pub mod hint;
pub mod hint_laws;
pub mod laws;
pub mod log;
pub mod path;
pub mod text;
pub mod text_laws;

pub use container::{
    detect, detect_current, detection_line, parse_containerenv, Detection, DevContainer,
    Environment, IoFailure, Probes, CONTAINERENV_PATH, DISTROBOX_CONTAINER_ID_ENV, TOOLBOXENV_PATH, TOOLBOX_PATH_ENV,
};
pub use hint::{
    is_missing_bind_source, log_self_exe_hint, with_hint_for, with_podman_failure_hint,
    FailureStep, HostProbe, ProbeStep, DOCS_URL,
};
pub use log::{Level, LogLine};
pub use path::{host_path, HOST_ROOT};
