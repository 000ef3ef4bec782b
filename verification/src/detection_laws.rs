//! What the detection makes of the texts and marks that it is given.

use vstd::prelude::*;

use crate::container::{self, DevContainer, Environment, Probes};
use crate::laws;
use crate::log::Level;
use crate::{text, text_laws};

verus! {

/// Whether `line` is a line of its own between `before` and `after`.
pub open spec fn is_line_between(before: Seq<char>, line: Seq<char>, after: Seq<char>) -> bool {
    &&& before.len() == 0 || before.last() == '\n'
    &&& !line.contains('\n')
    &&& after.len() == 0 || after[0] == '\n'
}

/// The entries around a line and that of the line itself make up the whole.
proof fn lemma_entries_around(before: Seq<char>, line: Seq<char>, after: Seq<char>)
    requires
        is_line_between(before, line, after),
    ensures
        container::containerenv_entries(before + line + after) == container::containerenv_entries(
            before,
        ) + container::containerenv_entries(line) + container::containerenv_entries(after),
{
    let none = Seq::<char>::empty();
    assert(container::containerenv_entries(none) =~= Seq::empty()) by {
        text_laws::law_last_line(none);
        assert(text::lines_of(none) =~= Seq::empty());
    }
    let tail = line + after;
    assert(container::containerenv_entries(tail) =~= container::containerenv_entries(line)
        + container::containerenv_entries(after)) by {
        if after.len() == 0 {
            assert(tail =~= line);
            assert(after =~= none);
        } else {
            let rest = after.skip(1);
            assert(tail =~= line.push('\n') + rest);
            assert(after =~= none.push('\n') + rest);
            laws::law_entries_line_by_line(line, rest);
            laws::law_entries_line_by_line(none, rest);
        }
    }
    let whole = before + line + after;
    if before.len() == 0 {
        assert(whole =~= tail);
        assert(before =~= none);
    } else {
        let init = before.drop_last();
        assert(before =~= init.push('\n') + none);
        assert(whole =~= init.push('\n') + tail);
        laws::law_entries_line_by_line(init, tail);
        laws::law_entries_line_by_line(init, none);
    }
    assert(container::containerenv_entries(whole) =~= container::containerenv_entries(before)
        + container::containerenv_entries(line) + container::containerenv_entries(after));
}

/// A line of `/run/.containerenv` gives what stands before its first `=` and what
/// stands after it, the former without the white space around it, the latter
/// without white space and then without double quotes around it. Whatever stands
/// before and after the line gives its own entries before and after that one.
pub proof fn law_line_gives_its_entry(
    before: Seq<char>,
    spaces: (Seq<char>, Seq<char>, Seq<char>, Seq<char>),
    key: Seq<char>,
    quotes: (Seq<char>, Seq<char>),
    value: Seq<char>,
    after: Seq<char>,
)
    requires
        is_line_between(
            before,
            spaces.0 + key + spaces.1 + seq!['='] + (spaces.2 + (quotes.0 + value + quotes.1)
                + spaces.3),
            after,
        ),
        forall|i: int| 0 <= i < spaces.0.len() ==> text::white_space(#[trigger] spaces.0[i]),
        forall|i: int| 0 <= i < spaces.1.len() ==> text::white_space(#[trigger] spaces.1[i]),
        forall|i: int| 0 <= i < spaces.2.len() ==> text::white_space(#[trigger] spaces.2[i]),
        forall|i: int| 0 <= i < spaces.3.len() ==> text::white_space(#[trigger] spaces.3[i]),
        forall|i: int| 0 <= i < quotes.0.len() ==> #[trigger] quotes.0[i] == '"',
        forall|i: int| 0 <= i < quotes.1.len() ==> #[trigger] quotes.1[i] == '"',
        !key.contains('='),
        key.len() > 0 ==> !text::white_space(key[0]) && !text::white_space(key.last()),
        value.len() > 0 ==> value[0] != '"' && value.last() != '"',
        value.len() > 0 && quotes.0.len() == 0 ==> !text::white_space(value[0]),
        value.len() > 0 && quotes.1.len() == 0 ==> !text::white_space(value.last()),
    ensures
        container::containerenv_entries(
            before + (spaces.0 + key + spaces.1 + seq!['='] + (spaces.2 + (quotes.0 + value
                + quotes.1) + spaces.3)) + after,
        ) == container::containerenv_entries(before) + seq![(key, value)]
            + container::containerenv_entries(after),
{
    let left = spaces.0 + key + spaces.1;
    let quoted = quotes.0 + value + quotes.1;
    let right = spaces.2 + quoted + spaces.3;
    let line = left + seq!['='] + right;
    lemma_entries_around(before, line, after);
    assert(!left.contains('=')) by {
        assert forall|i: int| 0 <= i < left.len() implies left[i] != '=' by {
            if i < spaces.0.len() {
                assert(text::white_space(spaces.0[i]));
            } else if i < spaces.0.len() + key.len() {
                assert(key.contains(key[i - spaces.0.len()]));
            } else {
                assert(text::white_space(spaces.1[i - spaces.0.len() - key.len()]));
            }
        }
    }
    text_laws::law_split_at_the_first(left, '=', right);
    text_laws::law_space_is_trimmed(spaces.0, key, spaces.1);
    if quoted.len() > 0 {
        if quotes.0.len() > 0 {
            assert(quoted[0] == quotes.0[0]);
        } else if value.len() > 0 {
            assert(quoted[0] == value[0]);
        } else {
            assert(quoted[0] == quotes.1[0]);
        }
        if quotes.1.len() > 0 {
            assert(quoted.last() == quotes.1[quotes.1.len() - 1]);
        } else if value.len() > 0 {
            assert(quoted.last() == value.last());
        } else {
            assert(quoted.last() == quotes.0[quotes.0.len() - 1]);
        }
    }
    text_laws::law_space_is_trimmed(spaces.2, quoted, spaces.3);
    text_laws::law_char_is_trimmed(quotes.0, value, quotes.1, '"');
    text_laws::law_last_line(line);
    container::lemma_entries_one(line);
    assert(container::containerenv_entries(line) =~= seq![(key, value)]);
}

/// A line of `/run/.containerenv` without `=` gives no entry, and takes none away
/// from what stands around it.
pub proof fn law_other_line_gives_no_entry(before: Seq<char>, line: Seq<char>, after: Seq<char>)
    requires
        is_line_between(before, line, after),
        !line.contains('='),
    ensures
        container::containerenv_entries(before + line + after) == container::containerenv_entries(
            before,
        ) + container::containerenv_entries(after),
        container::containerenv_entries(Seq::empty()).len() == 0,
{
    lemma_entries_around(before, line, after);
    text_laws::law_split_at_the_first(line, '=', Seq::empty());
    text_laws::law_last_line(line);
    text_laws::law_last_line(Seq::empty());
    container::lemma_entries_one(line);
    if line.len() == 0 {
        assert(text::lines_of(line) =~= Seq::empty());
    }
    assert(container::containerenv_entries(line) =~= Seq::empty());
    assert(container::containerenv_entries(before) + container::containerenv_entries(line)
        =~= container::containerenv_entries(before));
}

/// Whether an entry gives the name of the container or of its image.
pub open spec fn gives_a_name(entry: (Seq<char>, Seq<char>)) -> bool {
    entry.0 == seq!['n', 'a', 'm', 'e'] || entry.0 == seq!['i', 'm', 'a', 'g', 'e']
}

proof fn lemma_key_names()
    ensures
        "name"@ == seq!['n', 'a', 'm', 'e'],
        "image"@ == seq!['i', 'm', 'a', 'g', 'e'],
{
    reveal_strlit("name");
    reveal_strlit("image");
    assert("name"@ =~= seq!['n', 'a', 'm', 'e']);
    assert("image"@ =~= seq!['i', 'm', 'a', 'g', 'e']);
}

/// What tells the containers apart, in terms of the fields of an environment.
/// Toolbox's own marks mean toolbox. Without them and without podman's file there
/// is nothing. Otherwise `CONTAINER_ID`, or `distrobox` in the name of the
/// container or in that of its image, means distrobox; without these, `toolbox`
/// in either name means toolbox, and neither word in either name means nothing.
pub proof fn law_detected_from_fields(env: Environment)
    ensures
        env.toolboxenv || env.toolbox_path ==> container::detected(env@) == Some(
            DevContainer::Toolbox,
        ),
        !env.toolboxenv && !env.toolbox_path && env.containerenv is None ==> container::detected(
            env@,
        ) is None,
        !env.toolboxenv && !env.toolbox_path && env.containerenv is Some && env.container_id
            ==> container::detected(env@) == Some(DevContainer::Distrobox),
        !env.toolboxenv && !env.toolbox_path && env.containerenv is Some ==> forall|i: int|
            0 <= i < container::containerenv_entries(env.containerenv->0@).len() && gives_a_name(
                #[trigger] container::containerenv_entries(env.containerenv->0@)[i],
            ) && text::has_part(
                container::containerenv_entries(env.containerenv->0@)[i].1,
                "distrobox"@,
            ) ==> container::detected(env@) == Some(DevContainer::Distrobox),
        !env.toolboxenv && !env.toolbox_path && env.containerenv is Some && !env.container_id && (
        forall|i: int|
            0 <= i < container::containerenv_entries(env.containerenv->0@).len() && gives_a_name(
                #[trigger] container::containerenv_entries(env.containerenv->0@)[i],
            ) ==> !text::has_part(
                container::containerenv_entries(env.containerenv->0@)[i].1,
                "distrobox"@,
            )) ==> forall|i: int|
            0 <= i < container::containerenv_entries(env.containerenv->0@).len() && gives_a_name(
                #[trigger] container::containerenv_entries(env.containerenv->0@)[i],
            ) && text::has_part(
                container::containerenv_entries(env.containerenv->0@)[i].1,
                "toolbox"@,
            ) ==> container::detected(env@) == Some(DevContainer::Toolbox),
        !env.toolboxenv && !env.toolbox_path && env.containerenv is Some && !env.container_id && (
        forall|i: int|
            0 <= i < container::containerenv_entries(env.containerenv->0@).len() && gives_a_name(
                #[trigger] container::containerenv_entries(env.containerenv->0@)[i],
            ) ==> !text::has_part(
                container::containerenv_entries(env.containerenv->0@)[i].1,
                "distrobox"@,
            ) && !text::has_part(
                container::containerenv_entries(env.containerenv->0@)[i].1,
                "toolbox"@,
            )) ==> container::detected(env@) is None,
{
    lemma_key_names();
    if env.containerenv is Some {
        let entries = container::containerenv_entries(env.containerenv->0@);
        assert forall|i: int| 0 <= i < entries.len() implies gives_a_name(#[trigger] entries[i])
            == (entries[i].0 == "name"@ || entries[i].0 == "image"@) by {}
    }
}

/// A line `name="value"` or `image="value"` as podman writes it settles the matter
/// wherever it stands in the file: with `distrobox` in the value it means
/// distrobox; with `toolbox` it means toolbox, if nothing means distrobox.
pub proof fn law_name_line_detected(
    env: Environment,
    before: Seq<char>,
    key: Seq<char>,
    value: Seq<char>,
    after: Seq<char>,
)
    requires
        !env.toolboxenv && !env.toolbox_path,
        env.containerenv is Some,
        is_line_between(before, key + seq!['='] + (seq!['"'] + value + seq!['"']), after),
        env.containerenv->0@ == before + (key + seq!['='] + (seq!['"'] + value + seq!['"'])) + after,
        key == "name"@ || key == "image"@,
        value.len() > 0 ==> value[0] != '"' && value.last() != '"',
    ensures
        text::has_part(value, "distrobox"@) ==> container::detected(env@) == Some(
            DevContainer::Distrobox,
        ),
        text::has_part(value, "toolbox"@) && !env.container_id && (forall|i: int|
            0 <= i < container::containerenv_entries(env.containerenv->0@).len() && gives_a_name(
                #[trigger] container::containerenv_entries(env.containerenv->0@)[i],
            ) ==> !text::has_part(
                container::containerenv_entries(env.containerenv->0@)[i].1,
                "distrobox"@,
            )) ==> container::detected(env@) == Some(DevContainer::Toolbox),
{
    lemma_key_names();
    let none = Seq::<char>::empty();
    let line = key + seq!['='] + (seq!['"'] + value + seq!['"']);
    assert(none + key + none + seq!['='] + (none + (seq!['"'] + value + seq!['"']) + none) =~= line);
    assert(!key.contains('='));
    law_line_gives_its_entry(
        before,
        (none, none, none, none),
        key,
        (seq!['"'], seq!['"']),
        value,
        after,
    );
    let entries = container::containerenv_entries(env.containerenv->0@);
    let at = container::containerenv_entries(before).len() as int;
    assert(entries[at] == (key, value));
    assert(gives_a_name(entries[at]));
    law_detected_from_fields(env);
}

/// The looks around the process count as they are: each mark of toolbox means
/// toolbox, alone or with the other, and without both of them the file and
/// `CONTAINER_ID` decide as they do in an environment with the same ones. A look
/// that failed counts as no file.
pub proof fn law_looks_count_as_they_are(probes: Probes, env: Environment)
    ensures
        (probes.toolboxenv matches Ok(exists) && exists) ==> container::detected(probes.seen())
            == Some(DevContainer::Toolbox),
        probes.toolbox_path ==> container::detected(probes.seen()) == Some(DevContainer::Toolbox),
        !(probes.toolboxenv matches Ok(exists) && exists) && !probes.toolbox_path
            && probes.containerenv is Err ==> container::detected(probes.seen()) is None,
        !(probes.toolboxenv matches Ok(exists) && exists) && !probes.toolbox_path
            && probes.containerenv is Ok && !env.toolboxenv && !env.toolbox_path
            && env.containerenv is Some && env.containerenv->0@ == probes.containerenv->Ok_0@
            && env.container_id == probes.container_id ==> container::detected(probes.seen())
            == container::detected(env@),
{
}

/// Each field of what was seen is that of the look for it.
pub proof fn law_seen_field_by_field(probes: Probes, env: Environment)
    ensures
        probes.seen().toolboxenv <==> (probes.toolboxenv matches Ok(exists) && exists),
        probes.seen().containerenv is Some <==> probes.containerenv is Ok,
        probes.containerenv matches Ok(contents) ==> probes.seen().containerenv->0 == contents@,
        probes.seen().toolbox_path == probes.toolbox_path,
        probes.seen().container_id == probes.container_id,
        env@.toolboxenv == env.toolboxenv,
        env@.containerenv is Some <==> env.containerenv is Some,
        env.containerenv matches Some(contents) ==> env@.containerenv->0 == contents@,
        env@.toolbox_path == env.toolbox_path,
        env@.container_id == env.container_id,
{
}

/// The log lines on failed looks give the path and the failure in words, the one
/// on toolbox's file first. A look that did not fail, or that found no file of
/// podman's, is not mentioned.
pub proof fn law_failures_in_words(probes: Probes)
    ensures
        probes.toolboxenv is Ok && (probes.containerenv matches Err(e) ==> e.not_found)
            ==> probes.failures().len() == 0,
        probes.toolboxenv matches Err(e) ==> probes.failures().len() > 0 && probes.failures()[0] == (
            Level::Debug,
            "Checking for /run/.toolboxenv: "@ + e.message@,
        ),
        probes.toolboxenv is Err && (probes.containerenv matches Err(e) ==> e.not_found)
            ==> probes.failures().len() == 1,
        probes.containerenv matches Err(e) ==> !e.not_found ==> probes.failures().len() == (
        if probes.toolboxenv is Err {
            2int
        } else {
            1
        }) && probes.failures().last() == (
            Level::Debug,
            "Reading /run/.containerenv: "@ + e.message@,
        ),
{
    reveal_strlit("Checking for ");
    reveal_strlit("Reading ");
    reveal_strlit(": ");
    reveal_strlit("/run/.toolboxenv");
    reveal_strlit("/run/.containerenv");
    reveal_strlit("Checking for /run/.toolboxenv: ");
    reveal_strlit("Reading /run/.containerenv: ");
    assert("Checking for "@ + container::TOOLBOXENV_PATH@ + ": "@
        =~= "Checking for /run/.toolboxenv: "@);
    assert("Reading "@ + container::CONTAINERENV_PATH@ + ": "@ =~= "Reading /run/.containerenv: "@);
}

/// The closing log line of a detection names the result and ends with the
/// environment in words.
pub proof fn law_detection_in_words(env: Seq<char>)
    ensures
        container::detection_text(None, env) == "Development container detection: None from "@
            + env,
        container::detection_text(Some(DevContainer::Toolbox), env)
            == "Development container detection: Some(Toolbox) from "@ + env,
        container::detection_text(Some(DevContainer::Distrobox), env)
            == "Development container detection: Some(Distrobox) from "@ + env,
{
    reveal_strlit("Development container detection: ");
    reveal_strlit("None");
    reveal_strlit("Some(Toolbox)");
    reveal_strlit("Some(Distrobox)");
    reveal_strlit(" from ");
    reveal_strlit("Development container detection: None from ");
    reveal_strlit("Development container detection: Some(Toolbox) from ");
    reveal_strlit("Development container detection: Some(Distrobox) from ");
    assert("Development container detection: "@ + "None"@ + " from "@
        =~= "Development container detection: None from "@);
    assert("Development container detection: "@ + "Some(Toolbox)"@ + " from "@
        =~= "Development container detection: Some(Toolbox) from "@);
    assert("Development container detection: "@ + "Some(Distrobox)"@ + " from "@
        =~= "Development container detection: Some(Distrobox) from "@);
}

} // verus!
