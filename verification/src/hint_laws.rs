//! What podman's output and the looks at the host lead to.

use vstd::prelude::*;

use crate::container::{DevContainer, IoFailure};
use crate::hint::{self, HostProbe, ProbeStep, ProbeStepView, DOCS_URL};
use crate::laws;
use crate::log::{Level, LogLine};
use crate::{detection_laws, path, text, text_laws};

verus! {

/// Whether a line says, in podman's words, that the status of a file cannot be
/// had because there is no such file.
pub open spec fn says_no_such_file(line: Seq<char>) -> bool {
    text::has_part(line, "statfs "@) && text::has_part(line, "no such file or directory"@)
}

/// A single line reports a missing bind mount source exactly if it holds both
/// parts of podman's message, whatever else it holds.
pub proof fn law_report_on_one_line(line: Seq<char>)
    requires
        !line.contains('\n'),
    ensures
        hint::missing_bind_source(line) <==> text::has_part(line, "statfs "@) && text::has_part(
            line,
            "no such file or directory"@,
        ),
{
    reveal_strlit("statfs ");
    text_laws::law_last_line(line);
    if line.len() > 0 {
        assert(text::lines_of(line)[0] == line);
    } else {
        assert(!text::has_part(line, "statfs "@));
    }
}

/// The lines of podman's output are looked at one by one.
proof fn lemma_report_around(before: Seq<char>, line: Seq<char>, after: Seq<char>)
    requires
        detection_laws::is_line_between(before, line, after),
    ensures
        hint::missing_bind_source(before + line + after) <==> hint::missing_bind_source(before)
            || hint::missing_bind_source(line) || hint::missing_bind_source(after),
{
    let none = Seq::<char>::empty();
    text_laws::law_last_line(none);
    assert(!hint::missing_bind_source(none));
    let tail = line + after;
    assert(hint::missing_bind_source(tail) <==> hint::missing_bind_source(line)
        || hint::missing_bind_source(after)) by {
        if after.len() == 0 {
            assert(tail =~= line);
            assert(after =~= none);
        } else {
            let rest = after.skip(1);
            assert(tail =~= line.push('\n') + rest);
            assert(after =~= none.push('\n') + rest);
            laws::law_output_line_by_line(line, rest);
            laws::law_output_line_by_line(none, rest);
        }
    }
    let whole = before + line + after;
    if before.len() == 0 {
        assert(whole =~= tail);
        assert(before =~= none);
    } else {
        let init = before.drop_last();
        assert(before =~= init.push('\n') + none);
        assert(whole =~= init.push('\n') + tail);
        laws::law_output_line_by_line(init, tail);
        laws::law_output_line_by_line(init, none);
    }
}

/// Wherever it stands in podman's output, a line with both parts of the message is
/// a report, and a line without one of them makes no difference.
pub proof fn law_report_among_lines(before: Seq<char>, line: Seq<char>, after: Seq<char>)
    requires
        detection_laws::is_line_between(before, line, after),
    ensures
        says_no_such_file(line) ==> hint::missing_bind_source(before + line + after),
        !says_no_such_file(line) ==> (hint::missing_bind_source(before + line + after) <==> (
        hint::missing_bind_source(before) || hint::missing_bind_source(after))),
{
    lemma_report_around(before, line, after);
    law_report_on_one_line(line);
}

/// Podman's message on a missing bind mount source is recognised for every path
/// and with anything before and after it.
pub proof fn law_podman_message_recognised(
    before: Seq<char>,
    start: Seq<char>,
    source: Seq<char>,
    end: Seq<char>,
    after: Seq<char>,
)
    requires
        detection_laws::is_line_between(
            before,
            start + "statfs "@ + source + ": no such file or directory"@ + end,
            after,
        ),
    ensures
        hint::missing_bind_source(
            before + (start + "statfs "@ + source + ": no such file or directory"@ + end) + after,
        ),
{
    let line = start + "statfs "@ + source + ": no such file or directory"@ + end;
    reveal_strlit(": ");
    reveal_strlit("no such file or directory");
    reveal_strlit(": no such file or directory");
    assert(": no such file or directory"@ =~= ": "@ + "no such file or directory"@);
    text_laws::law_part_in_the_middle(
        start,
        "statfs "@,
        source + ": no such file or directory"@ + end,
    );
    assert(line =~= start + "statfs "@ + (source + ": no such file or directory"@ + end));
    text_laws::law_part_in_the_middle(
        start + "statfs "@ + source + ": "@,
        "no such file or directory"@,
        end,
    );
    assert(line =~= (start + "statfs "@ + source + ": "@) + "no such file or directory"@ + end);
    law_report_among_lines(before, line, after);
}

/// The name of a container in the guidance, after its article.
pub open spec fn place_of(kind: DevContainer) -> Seq<char> {
    if kind == DevContainer::Toolbox {
        "inside a toolbox container"@
    } else {
        "inside a distrobox container"@
    }
}

proof fn lemma_place(kind: DevContainer)
    ensures
        hint::place_text(kind) == place_of(kind),
{
    reveal_strlit("inside a ");
    reveal_strlit("toolbox");
    reveal_strlit("distrobox");
    reveal_strlit(" container");
    reveal_strlit("inside a toolbox container");
    reveal_strlit("inside a distrobox container");
    assert(hint::place_text(kind) =~= place_of(kind));
}

/// Where a line of podman's output reports a missing bind mount source, a process
/// in a container is given guidance that names the container and links to the
/// documentation. What else podman printed does not change the guidance.
pub proof fn law_guidance_given(
    kind: DevContainer,
    before: Seq<char>,
    line: Seq<char>,
    after: Seq<char>,
    other: Seq<char>,
)
    requires
        detection_laws::is_line_between(before, line, after),
        says_no_such_file(line),
    ensures
        hint::hint_for(Some(kind), before + line + after) is Some,
        text::has_part(hint::hint_for(Some(kind), before + line + after)->0, place_of(kind)),
        text::has_part(hint::hint_for(Some(kind), before + line + after)->0, DOCS_URL@),
        hint::missing_bind_source(other) ==> hint::hint_for(Some(kind), other) == hint::hint_for(
            Some(kind),
            before + line + after,
        ),
{
    law_report_among_lines(before, line, after);
    lemma_place(kind);
    laws::law_hint_names_container_and_docs(kind);
}

/// The guidance starts by saying where bcvk runs, says what to do about it, and
/// ends with the link.
pub proof fn law_guidance_from_start_to_end(kind: DevContainer, stderr: Seq<char>)
    requires
        hint::missing_bind_source(stderr),
    ensures
        hint::hint_for(Some(kind), stderr) matches Some(h) && h == "bcvk is running "@ + place_of(
            kind,
        ) + hint::HINT_CAUSE@ + (if kind == DevContainer::Toolbox {
            "toolbox"@
        } else {
            "distrobox"@
        }) + hint::HINT_REMEDY@ + DOCS_URL@,
{
    lemma_place(kind);
}

/// Inside a container the question about our own binary is asked with its path as
/// it is; outside there is none.
pub proof fn law_question_asked(kind: DevContainer, self_exe: Seq<char>)
    ensures
        hint::probe_for(None, self_exe) is None,
        hint::probe_for(Some(kind), self_exe) is Some,
        hint::probe_for(Some(kind), self_exe)->0.kind == kind,
        hint::probe_for(Some(kind), self_exe)->0.self_exe == self_exe,
        hint::probe_for(Some(kind), self_exe)->0.on_host == path::path_on_host(self_exe),
{
}

/// A question and a step say what their fields say, and an answer keeps its value
/// or its failure in words.
pub proof fn law_steps_field_by_field(probe: HostProbe, line: LogLine, e: IoFailure, there: bool)
    ensures
        probe@.kind == probe.kind,
        probe@.self_exe == probe.self_exe@,
        probe@.on_host == probe.on_host@,
        line@.0 == line.level,
        line@.1 == line.message@,
        ProbeStep::Log(line)@ == ProbeStepView::Log((line.level, line.message@)),
        ProbeStep::CheckHostRoot(probe)@ == ProbeStepView::CheckHostRoot(probe@),
        hint::answer(Ok::<bool, IoFailure>(there)) == Ok::<bool, Seq<char>>(there),
        hint::answer(Err::<bool, IoFailure>(e)) == Err::<bool, Seq<char>>(e.message@),
{
}

/// The beginning of a log line in a container of this kind.
pub open spec fn running_in(kind: DevContainer) -> Seq<char> {
    if kind == DevContainer::Toolbox {
        "Running in a toolbox"@
    } else {
        "Running in a distrobox"@
    }
}

proof fn lemma_running(kind: DevContainer)
    ensures
        "Running in a "@ + kind.label() == running_in(kind),
{
    reveal_strlit("Running in a ");
    reveal_strlit("toolbox");
    reveal_strlit("distrobox");
    reveal_strlit("Running in a toolbox");
    reveal_strlit("Running in a distrobox");
    assert("Running in a "@ + kind.label() =~= running_in(kind));
}

/// In either kind of container, a binary that is on the host is said to exist
/// there, at debug level; where the look failed, only the failure is told, and
/// where nothing was found nothing is said yet.
pub proof fn law_said_after_the_look(probe: HostProbe, message: Seq<char>)
    ensures
        probe@.after_exists(Ok(true)) == ProbeStepView::Log(
            (
                Level::Debug,
                running_in(probe.kind) + "; "@ + probe.self_exe@ + " also exists on the host"@,
            ),
        ),
        probe@.after_exists(Ok(false)) == ProbeStepView::CheckHostRoot(probe@),
        probe@.after_exists(Err(message)) == ProbeStepView::Log(
            (Level::Debug, "Checking for "@ + probe.on_host@ + ": "@ + message),
        ),
{
    lemma_running(probe.kind);
}

/// In either kind of container, where nothing was found and the host's root is
/// there, the user is told that the binary is not present on the host, and where
/// to read more; without the host's root nothing is said of the binary.
pub proof fn law_said_where_nothing_was_found(probe: HostProbe)
    ensures
        probe@.after_host_root(true).0 == Level::Info,
        text::has_part(probe@.after_host_root(true).1, running_in(probe.kind)),
        text::has_part(
            probe@.after_host_root(true).1,
            probe.self_exe@ + " is not present on the host"@,
        ),
        text::has_part(probe@.after_host_root(true).1, DOCS_URL@),
        probe@.after_host_root(true).1 == running_in(probe.kind) + ", and "@ + probe.self_exe@
            + " is not present on the host"@
            + "; this will fail if podman is forwarded to the host. See "@ + DOCS_URL@,
        probe@.after_host_root(false).0 == Level::Debug,
        probe@.after_host_root(false).1 == running_in(probe.kind)
            + " without /run/host; can't check the host"@,
{
    lemma_running(probe.kind);
    reveal_strlit(" is not present on the host");
    reveal_strlit("; this will fail if podman is forwarded to the host. See ");
    reveal_strlit(
        " is not present on the host; this will fail if podman is forwarded to the host. See ",
    );
    reveal_strlit(" without ");
    reveal_strlit("/run/host");
    reveal_strlit("; can't check the host");
    reveal_strlit(" without /run/host; can't check the host");
    let there = " is not present on the host"@;
    let warning = "; this will fail if podman is forwarded to the host. See "@;
    assert(there + warning
        =~= " is not present on the host; this will fail if podman is forwarded to the host. See "@);
    assert(" without "@ + path::HOST_ROOT@ + "; can't check the host"@
        =~= " without /run/host; can't check the host"@);
    let start = running_in(probe.kind);
    let exe = probe.self_exe@;
    let none = Seq::<char>::empty();
    let said = probe@.after_host_root(true).1;
    assert(said =~= start + ", and "@ + exe + there + warning + DOCS_URL@);
    assert(probe@.after_host_root(false).1 =~= start
        + " without /run/host; can't check the host"@);
    text_laws::law_part_in_the_middle(
        none,
        start,
        ", and "@ + exe + there + warning + DOCS_URL@,
    );
    assert(said =~= none + start + (", and "@ + exe + there + warning + DOCS_URL@));
    text_laws::law_part_in_the_middle(start + ", and "@, exe + there, warning + DOCS_URL@);
    assert(said =~= (start + ", and "@) + (exe + there) + (warning + DOCS_URL@));
    text_laws::law_part_in_the_middle(start + ", and "@ + exe + there + warning, DOCS_URL@, none);
    assert(said =~= (start + ", and "@ + exe + there + warning) + DOCS_URL@ + none);
}

/// That the binary also exists on the host is the end of a line only where it was
/// found there: the lines on a binary that was not found end otherwise.
pub proof fn law_existence_not_claimed_otherwise(probe: HostProbe, is_dir: bool, start: Seq<char>)
    ensures
        probe@.after_host_root(is_dir).1 != start + " also exists on the host"@,
{
    law_said_where_nothing_was_found(probe);
    reveal_strlit(" also exists on the host");
    reveal_strlit(" without /run/host; can't check the host");
    reveal_strlit(
        "https://github.com/bootc-dev/bcvk/blob/main/docs/src/installation.md#toolbox-and-distrobox",
    );
    let claimed = start + " also exists on the host"@;
    let line = probe@.after_host_root(is_dir).1;
    if is_dir {
        assert(line.last() == 'x');
        assert(claimed.last() == 't');
    } else {
        assert(line[line.len() - 10] == 'k');
        assert(claimed[claimed.len() - 10] == 'n');
    }
}

} // verus!
