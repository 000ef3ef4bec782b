//! Which development container, if any, a process runs in.

use vstd::prelude::*;
use vstd::string::StringExecFns;

use crate::log::{Level, LogLine};
use crate::{log, text};

verus! {

/// Created by toolbox in its containers.
pub const TOOLBOXENV_PATH: &'static str = "/run/.toolboxenv";

/// Created by podman in every container it runs.
pub const CONTAINERENV_PATH: &'static str = "/run/.containerenv";

/// Set by toolbox in its containers.
pub const TOOLBOX_PATH_ENV: &'static str = "TOOLBOX_PATH";

/// Set by distrobox to the container name.
pub const DISTROBOX_CONTAINER_ID_ENV: &'static str = "CONTAINER_ID";

/// A development container that typically forwards podman to the host.
#[derive(Debug, Clone, Copy, PartialEq, Eq, Structural)]
pub enum DevContainer {
    Toolbox,
    Distrobox,
}

impl DevContainer {
    /// The name by which users know the container.
    pub open spec fn label(self) -> Seq<char> {
        match self {
            DevContainer::Toolbox => "toolbox"@,
            DevContainer::Distrobox => "distrobox"@,
        }
    }

    /// The name by which users know the container.
    pub fn as_str(&self) -> (s: &'static str)
        ensures
            s@ == self.label(),
    {
        match self {
            DevContainer::Toolbox => "toolbox",
            DevContainer::Distrobox => "distrobox",
        }
    }

    /// The name by which users know the container, as an owned text.
    pub fn to_string(&self) -> (s: String)
        ensures
            s@ == self.label(),
    {
        self.as_str().to_owned()
    }
}

/// The inputs to detection.
#[derive(Debug)]
pub struct Environment<'a> {
    /// Whether `/run/.toolboxenv` exists.
    pub toolboxenv: bool,
    /// The contents of `/run/.containerenv`, if it exists.
    pub containerenv: Option<&'a str>,
    /// Whether `TOOLBOX_PATH` is set.
    pub toolbox_path: bool,
    /// Whether `CONTAINER_ID` is set.
    pub container_id: bool,
}

/// What an [`Environment`] says.
pub struct EnvironmentView {
    pub toolboxenv: bool,
    pub containerenv: Option<Seq<char>>,
    pub toolbox_path: bool,
    pub container_id: bool,
}

impl<'a> View for Environment<'a> {
    type V = EnvironmentView;

    open spec fn view(&self) -> EnvironmentView {
        EnvironmentView {
            toolboxenv: self.toolboxenv,
            containerenv: match self.containerenv {
                Some(contents) => Some(contents@),
                None => None,
            },
            toolbox_path: self.toolbox_path,
            container_id: self.container_id,
        }
    }
}

impl<'a> Default for Environment<'a> {
    /// An environment without any sign of a container.
    fn default() -> (env: Self)
        ensures
            !env.toolboxenv,
            env.containerenv is None,
            !env.toolbox_path,
            !env.container_id,
    {
        Environment {
            toolboxenv: false,
            containerenv: None,
            toolbox_path: false,
            container_id: false,
        }
    }
}

/// The key and the value of a `key="value"` line; `None` for a line without `=`.
pub open spec fn entry_of(line: Seq<char>) -> Option<(Seq<char>, Seq<char>)> {
    match text::split_at_first(line, '=') {
        Some((key, value)) => Some(
            (text::trimmed_space(key), text::trimmed_char(text::trimmed_space(value), '"')),
        ),
        None => None,
    }
}

/// The entries of those of `lines` that hold one, in order.
pub open spec fn entries_in(lines: Seq<Seq<char>>) -> Seq<(Seq<char>, Seq<char>)>
    decreases lines.len(),
{
    if lines.len() == 0 {
        Seq::empty()
    } else {
        match entry_of(lines.last()) {
            Some(entry) => entries_in(lines.drop_last()).push(entry),
            None => entries_in(lines.drop_last()),
        }
    }
}

/// The entries of a `/run/.containerenv` with these contents.
pub open spec fn containerenv_entries(contents: Seq<char>) -> Seq<(Seq<char>, Seq<char>)> {
    entries_in(text::lines_of(contents))
}

/// The texts that the pairs in `v` refer to.
pub open spec fn pair_views(v: Seq<(&str, &str)>) -> Seq<(Seq<char>, Seq<char>)> {
    v.map_values(|pair: (&str, &str)| (pair.0@, pair.1@))
}

/// Whether `entry` names the container or its image with `word` in the name.
pub open spec fn names_with(entry: (Seq<char>, Seq<char>), word: Seq<char>) -> bool {
    &&& entry.0 == "name"@ || entry.0 == "image"@
    &&& text::has_part(entry.1, word)
}

/// Whether the name of the container or of its image has `word` in it.
pub open spec fn named_with(contents: Seq<char>, word: Seq<char>) -> bool {
    exists|i: int|
        0 <= i < containerenv_entries(contents).len() && names_with(
            #[trigger] containerenv_entries(contents)[i],
            word,
        )
}

/// The container that `env` speaks of.
pub open spec fn detected(env: EnvironmentView) -> Option<DevContainer> {
    if env.toolboxenv || env.toolbox_path {
        Some(DevContainer::Toolbox)
    } else {
        match env.containerenv {
            None => None,
            Some(contents) => if env.container_id || named_with(contents, "distrobox"@) {
                Some(DevContainer::Distrobox)
            } else if named_with(contents, "toolbox"@) {
                Some(DevContainer::Toolbox)
            } else {
                None
            },
        }
    }
}

/// Lines give their entries independently of each other.
pub proof fn lemma_entries_add(a: Seq<Seq<char>>, b: Seq<Seq<char>>)
    ensures
        entries_in(a + b) == entries_in(a) + entries_in(b),
    decreases b.len(),
{
    if b.len() == 0 {
        assert(a + b =~= a);
        assert(entries_in(a) + entries_in(b) =~= entries_in(a));
    } else {
        assert((a + b).drop_last() =~= a + b.drop_last());
        lemma_entries_add(a, b.drop_last());
        assert(entries_in(a + b) =~= entries_in(a) + entries_in(b));
    }
}

/// The entry of a single line.
pub proof fn lemma_entries_one(line: Seq<char>)
    ensures
        entries_in(seq![line]) == match entry_of(line) {
            Some(entry) => seq![entry],
            None => Seq::empty(),
        },
{
    assert(seq![line].drop_last() =~= Seq::empty());
    assert(entries_in(Seq::<Seq<char>>::empty()) =~= Seq::empty());
}

/// A carriage return at the end of a line is no part of its entry.
pub proof fn lemma_entry_without_carriage_return(line: Seq<char>)
    ensures
        entry_of(text::without_carriage_return(line)) == entry_of(line),
{
    if line.len() > 0 && line.last() == '\r' {
        let bare = line.drop_last();
        let at = text::first_index(line, '=');
        text::lemma_first_index(line, '=');
        if at < line.len() {
            assert(at < bare.len());
            text::lemma_first_index_unique(bare, '=', at);
            assert(bare.take(at as int) =~= line.take(at as int));
            let value = bare.skip(at as int + 1);
            assert(line.skip(at as int + 1) =~= value.push('\r'));
            text::lemma_trimmed_push(value, |c: char| text::white_space(c), '\r');
        } else {
            text::lemma_first_index_unique(bare, '=', bare.len());
        }
    }
}

/// Parse the `key="value"` lines of `/run/.containerenv`.
pub fn parse_containerenv<'a>(contents: &'a str) -> (entries: Vec<(&'a str, &'a str)>)
    ensures
        pair_views(entries@) == containerenv_entries(contents@),
{
    let lines = text::lines(contents);
    let ghost all = text::views(lines@);
    let mut entries: Vec<(&'a str, &'a str)> = Vec::new();
    let mut i: usize = 0;
    assert(all.take(0) =~= Seq::empty());
    while i < lines.len()
        invariant
            i <= lines@.len(),
            all == text::views(lines@),
            pair_views(entries@) =~= entries_in(all.take(i as int)),
        decreases lines@.len() - i,
    {
        let ghost before = entries@;
        assert(all.take(i + 1).drop_last() =~= all.take(i as int));
        assert(all.take(i + 1).last() == lines@[i as int]@);
        if let Some((k, v)) = text::split_once(lines[i], '=') {
            let entry = (text::trim(k), text::trim_matches(text::trim(v), '"'));
            entries.push(entry);
            assert(pair_views(entries@) =~= pair_views(before).push((entry.0@, entry.1@)));
        }
        i = i + 1;
    }
    assert(all.take(lines@.len() as int) =~= all);
    entries
}

/// Whether an entry names the container or its image with `word` in the name.
fn any_named_with(entries: &Vec<(&str, &str)>, word: &str) -> (r: bool)
    ensures
        r == exists|i: int|
            0 <= i < entries@.len() && names_with(#[trigger] pair_views(entries@)[i], word@),
{
    let mut i: usize = 0;
    while i < entries.len()
        invariant
            i <= entries@.len(),
            forall|j: int| 0 <= j < i ==> !names_with(#[trigger] pair_views(entries@)[j], word@),
        decreases entries@.len() - i,
    {
        let (k, v) = entries[i];
        assert(pair_views(entries@)[i as int] == (k@, v@));
        if (text::same(k, "name") || text::same(k, "image")) && text::contains(v, word) {
            return true;
        }
        i = i + 1;
    }
    false
}

/// The development container that `env` speaks of, if any.
pub fn detect(env: &Environment) -> (kind: Option<DevContainer>)
    ensures
        kind == detected(env@),
        env.toolboxenv || env.toolbox_path ==> kind == Some(DevContainer::Toolbox),
        !env.toolboxenv && !env.toolbox_path && env.containerenv is None ==> kind is None,
{
    if env.toolboxenv || env.toolbox_path {
        return Some(DevContainer::Toolbox);
    }
    // Everything below only applies to podman containers; this also keeps a
    // stray CONTAINER_ID in a non-container environment from matching.
    let containerenv = match env.containerenv {
        Some(contents) => contents,
        None => {
            return None;
        },
    };
    if env.container_id {
        return Some(DevContainer::Distrobox);
    }
    // Fall back to hints in the container and image names. Distrobox
    // containers are often created from toolbox images, so it takes priority.
    let entries = parse_containerenv(containerenv);
    if any_named_with(&entries, "distrobox") {
        Some(DevContainer::Distrobox)
    } else if any_named_with(&entries, "toolbox") {
        Some(DevContainer::Toolbox)
    } else {
        None
    }
}

/// Why a look at the filesystem failed.
#[derive(Debug)]
pub struct IoFailure {
    /// Whether there was no such file.
    pub not_found: bool,
    /// The failure in words.
    pub message: String,
}

/// What a look around the running process gave.
#[derive(Debug)]
pub struct Probes {
    /// Whether there is a file at [`TOOLBOXENV_PATH`].
    pub toolboxenv: Result<bool, IoFailure>,
    /// The contents of the file at [`CONTAINERENV_PATH`].
    pub containerenv: Result<String, IoFailure>,
    /// Whether the variable [`TOOLBOX_PATH_ENV`] is set.
    pub toolbox_path: bool,
    /// Whether the variable [`DISTROBOX_CONTAINER_ID_ENV`] is set.
    pub container_id: bool,
}

impl Probes {
    /// The environment that these answers describe: a failed look saw nothing.
    pub open spec fn seen(self) -> EnvironmentView {
        EnvironmentView {
            toolboxenv: match self.toolboxenv {
                Ok(exists) => exists,
                Err(_) => false,
            },
            containerenv: match self.containerenv {
                Ok(contents) => Some(contents@),
                Err(_) => None,
            },
            toolbox_path: self.toolbox_path,
            container_id: self.container_id,
        }
    }

    /// What the log says of the failed looks. That there is no file at
    /// [`CONTAINERENV_PATH`] is an answer, not a failure.
    pub open spec fn failures(self) -> Seq<(Level, Seq<char>)> {
        (match self.toolboxenv {
            Err(e) => seq![
                (Level::Debug, "Checking for "@ + TOOLBOXENV_PATH@ + ": "@ + e.message@),
            ],
            Ok(_) => Seq::empty(),
        }) + (match self.containerenv {
            Err(e) if !e.not_found => seq![
                (Level::Debug, "Reading "@ + CONTAINERENV_PATH@ + ": "@ + e.message@),
            ],
            _ => Seq::empty(),
        })
    }

    /// Everything that the log says of the detection, if `env` is the environment
    /// in words: the failed looks, then the result.
    pub open spec fn records(self, env: Seq<char>) -> Seq<(Level, Seq<char>)> {
        self.failures().push((Level::Debug, detection_text(detected(self.seen()), env)))
    }

    /// The environment that these answers describe. A failed look counts as one
    /// that saw nothing.
    pub fn environment(&self) -> (env: Environment<'_>)
        ensures
            env@ == self.seen(),
            env.toolboxenv <==> (self.toolboxenv matches Ok(exists) && exists),
            match self.containerenv {
                Ok(contents) => env.containerenv matches Some(c) && c@ == contents@,
                Err(_) => env.containerenv is None,
            },
            env.toolbox_path == self.toolbox_path,
            env.container_id == self.container_id,
    {
        Environment {
            toolboxenv: match &self.toolboxenv {
                Ok(exists) => *exists,
                Err(_) => false,
            },
            containerenv: match &self.containerenv {
                Ok(contents) => Some(contents.as_str()),
                Err(_) => None,
            },
            toolbox_path: self.toolbox_path,
            container_id: self.container_id,
        }
    }

    /// The log lines on the failed looks, in the order of the looks.
    pub fn failure_lines(&self) -> (lines: Vec<LogLine>)
        ensures
            log::line_views(lines@) == self.failures(),
    {
        let mut lines: Vec<LogLine> = Vec::new();
        if let Err(e) = &self.toolboxenv {
            lines.push(failure_line("Checking for ", TOOLBOXENV_PATH, e));
        }
        if let Err(e) = &self.containerenv {
            if !e.not_found {
                lines.push(failure_line("Reading ", CONTAINERENV_PATH, e));
            }
        }
        assert(log::line_views(lines@) =~= self.failures());
        lines
    }
}

/// The log line on an action on `path` that failed with `e`.
pub(crate) fn failure_line(action: &str, path: &str, e: &IoFailure) -> (line: LogLine)
    ensures
        line@ == (Level::Debug, action@ + path@ + ": "@ + e.message@),
{
    let message = action.to_owned().concat(path).concat(": ").concat(e.message.as_str());
    LogLine { level: Level::Debug, message }
}

/// A result of the detection, as the log shows it.
pub open spec fn shown(kind: Option<DevContainer>) -> Seq<char> {
    match kind {
        None => "None"@,
        Some(DevContainer::Toolbox) => "Some(Toolbox)"@,
        Some(DevContainer::Distrobox) => "Some(Distrobox)"@,
    }
}

/// What the log says of the result, if `env` is the environment in words.
pub open spec fn detection_text(kind: Option<DevContainer>, env: Seq<char>) -> Seq<char> {
    "Development container detection: "@ + shown(kind) + " from "@ + env
}

/// The log line on the result of the detection. `env` is the environment that it
/// came from, in words.
pub fn detection_line(kind: Option<DevContainer>, env: &str) -> (line: LogLine)
    ensures
        line@ == (Level::Debug, detection_text(kind, env@)),
{
    let result = match kind {
        None => "None",
        Some(DevContainer::Toolbox) => "Some(Toolbox)",
        Some(DevContainer::Distrobox) => "Some(Distrobox)",
    };
    let message = "Development container detection: ".to_owned().concat(result).concat(
        " from ",
    ).concat(env);
    LogLine { level: Level::Debug, message }
}

/// The outcome of a detection.
#[derive(Debug)]
pub struct Detection {
    /// The container that was detected, if any.
    pub kind: Option<DevContainer>,
    /// What to log, in order.
    pub log: Vec<LogLine>,
}

/// Detect whether the process that was looked at runs inside a toolbox or
/// distrobox container. `env` is what [`Probes::environment`] gives, in words; it
/// only goes into the log.
///
/// This is only used for hints, so a failed look is logged and treated as one
/// that saw nothing rather than failing.
pub fn detect_current(probes: &Probes, env: &str) -> (detection: Detection)
    ensures
        detection.kind == detected(probes.seen()),
        log::line_views(detection.log@) == probes.records(env@),
{
    let kind = detect(&probes.environment());
    let mut lines = probes.failure_lines();
    let ghost failures = lines@;
    let line = detection_line(kind, env);
    lines.push(line);
    assert(log::line_views(lines@) =~= log::line_views(failures).push(line@));
    Detection { kind, log: lines }
}

} // verus!
