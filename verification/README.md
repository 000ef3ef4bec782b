# bcvk-toolbox

Guidance for podman failures inside a toolbox or distrobox container.

The library decides; it does no I/O. `container` tells which development
container an environment speaks of, `path` where a host path is visible from
inside it, and `hint` what to say to the user. `text` reads text character by
character, and `laws` states what holds of the whole. `app` looks at the
filesystem and the environment, logs, and hands the answers to the library.

Trusted without proof are the contracts of three calls: `strip_prefix` and
`join` of `camino::Utf8Path`, for paths on Unix, and `wrap_err` of
`color_eyre::eyre::Report`.
