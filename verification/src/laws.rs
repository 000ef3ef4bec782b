//! What holds of detection and guidance as a whole.

use vstd::prelude::*;

use crate::container::{self, DevContainer, EnvironmentView, Probes};
use crate::hint::{self, ProbeStepView, DOCS_URL};
use crate::log::Level;
use crate::text;

verus! {

/// What toolbox leaves in its containers settles the matter, whatever else
/// there is.
pub proof fn law_toolbox_marks_decide(env: EnvironmentView)
    requires
        env.toolboxenv || env.toolbox_path,
    ensures
        container::detected(env) == Some(DevContainer::Toolbox),
{
}

/// Outside of a podman container nothing but toolbox's own marks counts: a
/// stray `CONTAINER_ID` does not match.
pub proof fn law_nothing_outside_containers(env: EnvironmentView)
    requires
        env.containerenv is None,
        !env.toolboxenv && !env.toolbox_path,
    ensures
        container::detected(env) is None,
{
}

/// In a podman container without toolbox's own marks, `CONTAINER_ID` or a name
/// with `distrobox` in it means distrobox, though another name may have
/// `toolbox` in it.
pub proof fn law_distrobox_before_toolbox_names(env: EnvironmentView)
    requires
        !env.toolboxenv && !env.toolbox_path,
        env.containerenv is Some,
        env.container_id || container::named_with(env.containerenv->0, "distrobox"@),
    ensures
        container::detected(env) == Some(DevContainer::Distrobox),
{
}

/// Two looks around that differ only in how a look failed, or in that one
/// failed where the other saw nothing, detect the same.
pub proof fn law_failed_looks_see_nothing(failed: Probes, other: Probes)
    requires
        failed.toolbox_path == other.toolbox_path,
        failed.container_id == other.container_id,
        failed.toolboxenv is Err ==> (other.toolboxenv is Err || other.toolboxenv == Ok::<
            bool,
            container::IoFailure,
        >(false)),
        failed.toolboxenv is Ok ==> other.toolboxenv == failed.toolboxenv,
        failed.containerenv is Err ==> other.containerenv is Err,
        failed.containerenv is Ok ==> other.containerenv == failed.containerenv,
    ensures
        container::detected(failed.seen()) == container::detected(other.seen()),
{
}

/// The detection logs at debug level alone: one line for a failed look for
/// toolbox's file, one for a failed read of podman's unless there is no such
/// file, and at the end one that gives the result.
pub proof fn law_detection_log(probes: Probes, env: Seq<char>)
    ensures
        forall|i: int|
            0 <= i < probes.records(env).len() ==> (#[trigger] probes.records(env)[i]).0
                == Level::Debug,
        probes.records(env).last().1 == container::detection_text(
            container::detected(probes.seen()),
            env,
        ),
        probes.records(env).len() == 1 + (if probes.toolboxenv is Err {
            1int
        } else {
            0
        }) + (if probes.containerenv matches Err(e) && !e.not_found {
            1int
        } else {
            0
        }),
        probes.toolboxenv matches Err(e) ==> probes.records(env)[0].1 == "Checking for "@
            + container::TOOLBOXENV_PATH@ + ": "@ + e.message@,
        probes.containerenv matches Err(e) ==> !e.not_found ==> probes.records(
            env,
        )[probes.records(env).len() - 2].1 == "Reading "@ + container::CONTAINERENV_PATH@ + ": "@
            + e.message@,
{
}

/// There is guidance exactly for a process in a development container whose
/// podman did not find a bind mount source.
pub proof fn law_hint_when(kind: Option<DevContainer>, stderr: Seq<char>)
    ensures
        hint::hint_for(kind, stderr) is Some <==> kind is Some && hint::missing_bind_source(stderr),
{
}

/// To look at podman's output first and at the container only if need be loses
/// nothing: where the output does not call for it, no container would have led to
/// guidance.
pub proof fn law_output_first(kind: Option<DevContainer>, stderr: Seq<char>)
    requires
        !hint::missing_bind_source(stderr),
    ensures
        hint::hint_for(kind, stderr) is None,
{
}

/// The guidance says in which kind of container the process runs, and where to
/// read more.
pub proof fn law_hint_names_container_and_docs(kind: DevContainer)
    ensures
        text::has_part(hint::hint_text(kind), hint::place_text(kind)),
        text::has_part(hint::hint_text(kind), DOCS_URL@),
{
    let all = hint::hint_text(kind);
    let place = hint::place_text(kind);
    let start = hint::HINT_START@.len() as int;
    assert(all.subrange(start, start + place.len()) =~= place);
    assert(text::stands_at(all, place, start));
    let end = all.len() - DOCS_URL@.len();
    assert(all.subrange(end, end + DOCS_URL@.len()) =~= DOCS_URL@);
    assert(text::stands_at(all, DOCS_URL@, end));
}

/// What is logged up front about the binary at `self_exe`, given the answers to
/// the questions that come up on the way.
pub open spec fn logged(
    kind: Option<DevContainer>,
    self_exe: Seq<char>,
    exists: Result<bool, Seq<char>>,
    host_root_is_dir: bool,
) -> Option<(Level, Seq<char>)> {
    match hint::probe_for(kind, self_exe) {
        Some(probe) => match probe.after_exists(exists) {
            ProbeStepView::Log(line) => Some(line),
            ProbeStepView::CheckHostRoot(later) => Some(later.after_host_root(host_root_is_dir)),
        },
        None => None,
    }
}

/// Users are told up front exactly when they run in a development container,
/// the host's root is there to look at, and the binary is not on it. Outside of
/// such containers nothing is logged at all.
pub proof fn law_told_up_front(
    kind: Option<DevContainer>,
    self_exe: Seq<char>,
    exists: Result<bool, Seq<char>>,
    host_root_is_dir: bool,
)
    ensures
        logged(kind, self_exe, exists, host_root_is_dir) is None <==> kind is None,
        (logged(kind, self_exe, exists, host_root_is_dir) matches Some(line) && line.0
            == Level::Info) <==> kind is Some && exists == Ok::<bool, Seq<char>>(false)
            && host_root_is_dir,
{
}

/// A line feed at the end of the contents makes no difference to the entries.
proof fn lemma_entries_fed(contents: Seq<char>)
    ensures
        container::containerenv_entries(contents.push('\n')) == container::containerenv_entries(
            contents,
        ),
    decreases contents.len(),
{
    let end = text::first_index(contents, '\n');
    text::lemma_fed_lines(contents);
    if end < contents.len() {
        let first = seq![text::without_carriage_return(contents.take(end as int))];
        let rest = contents.skip(end as int + 1);
        lemma_entries_fed(rest);
        container::lemma_entries_add(first, text::lines_of(rest));
        container::lemma_entries_add(first, text::lines_of(rest.push('\n')));
    } else {
        container::lemma_entry_without_carriage_return(contents);
        container::lemma_entries_one(text::without_carriage_return(contents));
        container::lemma_entries_one(contents);
        if contents.len() == 0 {
            assert(container::entry_of(contents) is None);
            assert(container::entries_in(Seq::<Seq<char>>::empty()) =~= Seq::empty());
        }
    }
}

/// The lines of a `/run/.containerenv` are read independently of each other:
/// cut the contents at a line feed, and the entries of the whole are those of
/// the one part and then those of the other.
pub proof fn law_entries_line_by_line(a: Seq<char>, b: Seq<char>)
    ensures
        container::containerenv_entries(a.push('\n') + b) == container::containerenv_entries(a)
            + container::containerenv_entries(b),
{
    text::lemma_lines_after_feed(a, b);
    container::lemma_entries_add(text::lines_of(a.push('\n')), text::lines_of(b));
    lemma_entries_fed(a);
}

/// The names in a `/run/.containerenv` are looked for line by line: a word is in
/// a name of the whole exactly if it is in one of either part.
pub proof fn law_names_line_by_line(a: Seq<char>, b: Seq<char>, word: Seq<char>)
    ensures
        container::named_with(a.push('\n') + b, word) <==> container::named_with(a, word)
            || container::named_with(b, word),
{
    law_entries_line_by_line(a, b);
    let all = container::containerenv_entries(a.push('\n') + b);
    let first = container::containerenv_entries(a);
    let second = container::containerenv_entries(b);
    if container::named_with(a, word) {
        let i = choose|i: int|
            0 <= i < first.len() && container::names_with(#[trigger] first[i], word);
        assert(all[i] == first[i]);
    }
    if container::named_with(b, word) {
        let i = choose|i: int|
            0 <= i < second.len() && container::names_with(#[trigger] second[i], word);
        assert(all[i + first.len()] == second[i]);
    }
    if container::named_with(a.push('\n') + b, word) {
        let i = choose|i: int| 0 <= i < all.len() && container::names_with(#[trigger] all[i], word);
        if i < first.len() {
            assert(container::names_with(first[i], word));
        } else {
            assert(container::names_with(second[i - first.len()], word));
        }
    }
}

/// Lines of a `/run/.containerenv` that name neither the container nor its image
/// have no part in the detection.
pub proof fn law_other_lines_do_not_count(env: EnvironmentView, lines: Seq<char>)
    requires
        env.containerenv is Some,
        forall|i: int|
            0 <= i < container::containerenv_entries(lines).len() ==> {
                let key = (#[trigger] container::containerenv_entries(lines)[i]).0;
                key != "name"@ && key != "image"@
            },
    ensures
        container::detected(
            EnvironmentView {
                containerenv: Some(env.containerenv->0.push('\n') + lines),
                ..env
            },
        ) == container::detected(env),
        container::detected(
            EnvironmentView {
                containerenv: Some(lines.push('\n') + env.containerenv->0),
                ..env
            },
        ) == container::detected(env),
{
    let contents = env.containerenv->0;
    law_names_line_by_line(contents, lines, "distrobox"@);
    law_names_line_by_line(contents, lines, "toolbox"@);
    law_names_line_by_line(lines, contents, "distrobox"@);
    law_names_line_by_line(lines, contents, "toolbox"@);
}

/// Whether one of `lines` reports a bind mount source that doesn't exist.
spec fn any_reports(lines: Seq<Seq<char>>) -> bool {
    exists|i: int| 0 <= i < lines.len() && hint::reports_missing_source(#[trigger] lines[i])
}

proof fn lemma_any_reports_add(a: Seq<Seq<char>>, b: Seq<Seq<char>>)
    ensures
        any_reports(a + b) <==> any_reports(a) || any_reports(b),
{
    if any_reports(a + b) {
        let i = choose|i: int|
            0 <= i < (a + b).len() && hint::reports_missing_source(#[trigger] (a + b)[i]);
        if i < a.len() {
            assert(hint::reports_missing_source(a[i]));
        } else {
            assert(hint::reports_missing_source(b[i - a.len()]));
        }
    }
    if any_reports(a) {
        let i = choose|i: int| 0 <= i < a.len() && hint::reports_missing_source(#[trigger] a[i]);
        assert((a + b)[i] == a[i]);
    }
    if any_reports(b) {
        let i = choose|i: int| 0 <= i < b.len() && hint::reports_missing_source(#[trigger] b[i]);
        assert((a + b)[i + a.len()] == b[i]);
    }
}

/// A carriage return at the end of a line makes no difference to the report.
proof fn lemma_report_without_carriage_return(line: Seq<char>)
    ensures
        hint::reports_missing_source(text::without_carriage_return(line))
            == hint::reports_missing_source(line),
        line.len() == 0 ==> !hint::reports_missing_source(line),
{
    reveal_strlit("statfs ");
    reveal_strlit("no such file or directory");
    text::lemma_part_without_carriage_return(line, hint::PODMAN_STATFS_PREFIX@);
    text::lemma_part_without_carriage_return(line, hint::ENOENT_MESSAGE@);
}

/// A line feed at the end of podman's output makes no difference.
proof fn lemma_output_fed(stderr: Seq<char>)
    ensures
        hint::missing_bind_source(stderr.push('\n')) == hint::missing_bind_source(stderr),
    decreases stderr.len(),
{
    let end = text::first_index(stderr, '\n');
    let lines = text::lines_of(stderr);
    let fed_lines = text::lines_of(stderr.push('\n'));
    text::lemma_fed_lines(stderr);
    assert(any_reports(lines) == hint::missing_bind_source(stderr));
    assert(any_reports(fed_lines) == hint::missing_bind_source(stderr.push('\n')));
    if end < stderr.len() {
        let first = seq![text::without_carriage_return(stderr.take(end as int))];
        let rest = stderr.skip(end as int + 1);
        lemma_output_fed(rest);
        assert(any_reports(text::lines_of(rest)) == hint::missing_bind_source(rest));
        assert(any_reports(text::lines_of(rest.push('\n'))) == hint::missing_bind_source(
            rest.push('\n'),
        ));
        lemma_any_reports_add(first, text::lines_of(rest));
        lemma_any_reports_add(first, text::lines_of(rest.push('\n')));
    } else {
        lemma_report_without_carriage_return(stderr);
        let bare = text::without_carriage_return(stderr);
        assert(fed_lines[0] == bare);
        assert(any_reports(fed_lines) == hint::reports_missing_source(bare));
        if stderr.len() > 0 {
            assert(lines[0] == stderr);
            assert(any_reports(lines) == hint::reports_missing_source(stderr));
        }
    }
}

/// Podman's output is read line by line: other lines, before or after, neither
/// hide the report of a missing bind mount source nor make one up.
pub proof fn law_output_line_by_line(a: Seq<char>, b: Seq<char>)
    ensures
        hint::missing_bind_source(a.push('\n') + b) <==> hint::missing_bind_source(a)
            || hint::missing_bind_source(b),
{
    let whole = a.push('\n') + b;
    text::lemma_lines_after_feed(a, b);
    lemma_any_reports_add(text::lines_of(a.push('\n')), text::lines_of(b));
    lemma_output_fed(a);
    assert(any_reports(text::lines_of(whole)) == hint::missing_bind_source(whole));
    assert(any_reports(text::lines_of(a.push('\n'))) == hint::missing_bind_source(a.push('\n')));
    assert(any_reports(text::lines_of(b)) == hint::missing_bind_source(b));
}

/// An entry as podman writes it: `key="value"`.
pub open spec fn written_line(entry: (Seq<char>, Seq<char>)) -> Seq<char> {
    entry.0 + seq!['=', '"'] + entry.1 + seq!['"']
}

/// Entries as podman writes them, each on a line of its own.
pub open spec fn written(entries: Seq<(Seq<char>, Seq<char>)>) -> Seq<char>
    decreases entries.len(),
{
    if entries.len() == 0 {
        Seq::empty()
    } else {
        (written(entries.drop_last()) + written_line(entries.last())).push('\n')
    }
}

/// Whether the form `key="value"` can hold `entry`: neither part spans lines,
/// the key has no `=` and no white space around it, the value no double quote
/// at either end.
pub open spec fn can_be_written(entry: (Seq<char>, Seq<char>)) -> bool {
    let (key, value) = entry;
    &&& !key.contains('\n') && !value.contains('\n')
    &&& !key.contains('=')
    &&& key.len() > 0 ==> !text::white_space(key[0]) && !text::white_space(key.last())
    &&& value.len() > 0 ==> value[0] != '"' && value.last() != '"'
}

proof fn lemma_written_line(entry: (Seq<char>, Seq<char>))
    requires
        can_be_written(entry),
    ensures
        container::entry_of(written_line(entry)) == Some(entry),
        !written_line(entry).contains('\n'),
        text::without_carriage_return(written_line(entry)) == written_line(entry),
{
    let (key, value) = entry;
    let line = written_line(entry);
    let quoted = seq!['"'] + value + seq!['"'];
    assert(line.len() == key.len() + value.len() + 3);
    assert forall|i: int| 0 <= i < line.len() implies line[i] != '\n' by {
        if i < key.len() {
            assert(key.contains(key[i]));
        } else if key.len() + 2 <= i < line.len() - 1 {
            assert(value.contains(value[i - key.len() - 2]));
        }
    }
    assert forall|i: int| 0 <= i < key.len() implies line[i] != '=' by {
        assert(key.contains(key[i]));
    }
    text::lemma_first_index_unique(line, '=', key.len());
    assert(line.take(key.len() as int) =~= key);
    assert(line.skip(key.len() as int + 1) =~= quoted);
    text::lemma_trimmed_nothing(key, |c: char| text::white_space(c));
    text::lemma_trimmed_nothing(quoted, |c: char| text::white_space(c));
    let quote = text::being('"');
    let open = value + seq!['"'];
    assert(quoted.skip(1) =~= open);
    assert(open =~= value.push('"'));
    if value.len() > 0 {
        assert(open[0] == value[0]);
        assert(text::trimmed_front(open, quote) == open);
        assert(text::trimmed_front(quoted, quote) == open);
        text::lemma_trimmed_back(open, quote, value.len() as int);
        assert(open.take(value.len() as int) =~= value);
    } else {
        assert(open =~= seq!['"']);
        text::lemma_trimmed_front(quoted, quote, 2);
        assert(quoted.skip(2) =~= value);
    }
    assert(text::trimmed_char(quoted, '"') == value);
}

/// What podman writes is what is read: entries in the form `key="value"`, each
/// on a line of its own, come back unchanged and in order.
pub proof fn law_written_entries_read_back(entries: Seq<(Seq<char>, Seq<char>)>)
    requires
        forall|i: int| 0 <= i < entries.len() ==> can_be_written(#[trigger] entries[i]),
    ensures
        container::containerenv_entries(written(entries)) == entries,
    decreases entries.len(),
{
    if entries.len() == 0 {
        assert(text::lines_of(Seq::<char>::empty()) =~= Seq::empty());
        assert(container::entries_in(Seq::<Seq<char>>::empty()) =~= entries);
    } else {
        let init = entries.drop_last();
        let line = written_line(entries.last());
        law_written_entries_read_back(init);
        lemma_written_line(entries.last());
        text::lemma_single_line(line);
        container::lemma_entries_one(line);
        let before = written(init);
        if init.len() == 0 {
            assert(before + line =~= line);
            assert(entries =~= seq![entries.last()]);
        } else {
            let cut = before.drop_last();
            assert(before =~= cut.push('\n'));
            assert(written(entries) =~= cut.push('\n') + line.push('\n'));
            text::lemma_lines_after_feed(cut, line.push('\n'));
            container::lemma_entries_add(text::lines_of(before), seq![line]);
            assert(entries =~= init + seq![entries.last()]);
        }
    }
}

/// A value that needs no quotes is read without them, too: a line `key=value`
/// gives its key and its value.
pub proof fn law_bare_value_read_back(key: Seq<char>, value: Seq<char>)
    requires
        can_be_written((key, value)),
        value.len() > 0 ==> !text::white_space(value[0]) && !text::white_space(value.last()),
    ensures
        container::containerenv_entries((key + seq!['='] + value).push('\n')) == seq![(key, value)],
{
    let line = key + seq!['='] + value;
    assert forall|i: int| 0 <= i < line.len() implies line[i] != '\n' by {
        if i < key.len() {
            assert(key.contains(key[i]));
        } else if key.len() < i {
            assert(value.contains(value[i - key.len() - 1]));
        }
    }
    assert forall|i: int| 0 <= i < key.len() implies line[i] != '=' by {
        assert(key.contains(key[i]));
    }
    text::lemma_first_index_unique(line, '=', key.len());
    assert(line.take(key.len() as int) =~= key);
    assert(line.skip(key.len() as int + 1) =~= value);
    text::lemma_trimmed_nothing(key, |c: char| text::white_space(c));
    text::lemma_trimmed_nothing(value, |c: char| text::white_space(c));
    text::lemma_trimmed_nothing(value, text::being('"'));
    text::lemma_single_line(line);
    container::lemma_entries_one(line);
    container::lemma_entry_without_carriage_return(line);
    container::lemma_entries_one(text::without_carriage_return(line));
}

} // verus!
