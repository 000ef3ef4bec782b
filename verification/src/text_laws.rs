//! What reading text and paths comes to, in terms of how a text is put together.

use vstd::prelude::*;

use crate::log::{self, LogLine};
use crate::{container, path, text};

verus! {

/// A text holds a part exactly if it can be cut into something, the part, and
/// something.
pub proof fn law_part_is_cut_out(s: Seq<char>, part: Seq<char>)
    ensures
        text::has_part(s, part) <==> exists|x: Seq<char>, y: Seq<char>| s == #[trigger] (x + part + y),
{
    if text::has_part(s, part) {
        let at = choose|at: int| text::stands_at(s, part, at);
        let x = s.take(at);
        let y = s.skip(at + part.len());
        assert(s =~= x + s.subrange(at, at + part.len()) + y);
        assert(s == x + part + y);
    }
    if exists|x: Seq<char>, y: Seq<char>| s == #[trigger] (x + part + y) {
        let (x, y) = choose|x: Seq<char>, y: Seq<char>| s == #[trigger] (x + part + y);
        law_part_in_the_middle(x, part, y);
    }
}

/// Whatever stands around it, a part is found.
pub proof fn law_part_in_the_middle(x: Seq<char>, part: Seq<char>, y: Seq<char>)
    ensures
        text::has_part(x + part + y, part),
{
    let s = x + part + y;
    assert(s.subrange(x.len() as int, x.len() as int + part.len()) =~= part);
    assert(text::stands_at(s, part, x.len() as int));
}

/// A line ends at the first line feed, and loses one carriage return before
/// that; the lines of what follows are the other ones.
pub proof fn law_first_line(line: Seq<char>, rest: Seq<char>)
    requires
        !line.contains('\n'),
    ensures
        line.len() == 0 || line.last() != '\r' ==> text::lines_of(line + seq!['\n'] + rest)
            == seq![line] + text::lines_of(rest),
        text::lines_of(line + seq!['\r', '\n'] + rest) == seq![line] + text::lines_of(rest),
{
    text::lemma_lines_after_feed(line, rest);
    text::lemma_single_line(line);
    assert(line + seq!['\n'] + rest =~= line.push('\n') + rest);
    let long = line.push('\r');
    assert(!long.contains('\n')) by {
        assert forall|i: int| 0 <= i < long.len() implies long[i] != '\n' by {
            if i < line.len() {
                assert(line.contains(line[i]));
            }
        }
    }
    text::lemma_lines_after_feed(long, rest);
    text::lemma_single_line(long);
    assert(long.drop_last() =~= line);
    assert(line + seq!['\r', '\n'] + rest =~= long.push('\n') + rest);
}

/// The last line needs no line feed, and keeps what it has at its end. There are
/// no lines in an empty text.
pub proof fn law_last_line(line: Seq<char>)
    requires
        !line.contains('\n'),
    ensures
        line.len() > 0 ==> text::lines_of(line) == seq![line],
        line.len() == 0 ==> text::lines_of(line).len() == 0,
{
    text::lemma_first_index(line, '\n');
    text::lemma_fed_lines(line);
}

/// A text is split at the first of the characters in question.
pub proof fn law_split_at_the_first(before: Seq<char>, c: char, after: Seq<char>)
    requires
        !before.contains(c),
    ensures
        text::split_at_first(before + seq![c] + after, c) == Some((before, after)),
        text::split_at_first(before, c) is None,
{
    let s = before + seq![c] + after;
    assert forall|i: int| 0 <= i < before.len() implies s[i] != c && before[i] != c by {
        assert(before.contains(before[i]));
    }
    text::lemma_first_index_unique(s, c, before.len());
    text::lemma_first_index_unique(before, c, before.len());
    assert(s.take(before.len() as int) =~= before);
    assert(s.skip(before.len() as int + 1) =~= after);
}

/// What is dropped at the ends goes, and nothing else does.
proof fn lemma_trimmed_between(
    front: Seq<char>,
    kept: Seq<char>,
    back: Seq<char>,
    drop: spec_fn(char) -> bool,
)
    requires
        forall|i: int| 0 <= i < front.len() ==> drop(#[trigger] front[i]),
        forall|i: int| 0 <= i < back.len() ==> drop(#[trigger] back[i]),
        kept.len() > 0 ==> !drop(kept[0]) && !drop(kept.last()),
    ensures
        text::trimmed(front + kept + back, drop) == kept,
{
    let s = front + kept + back;
    if kept.len() == 0 {
        assert forall|i: int| 0 <= i < s.len() implies drop(#[trigger] s[i]) by {
            if i < front.len() {
                assert(drop(front[i]));
            } else {
                assert(drop(back[i - front.len()]));
            }
        }
        text::lemma_trimmed_front(s, drop, s.len() as int);
        assert(s.skip(s.len() as int) =~= kept);
    } else {
        assert forall|i: int| 0 <= i < front.len() implies drop(#[trigger] s[i]) by {
            assert(drop(front[i]));
        }
        text::lemma_trimmed_front(s, drop, front.len() as int);
        let rest = s.skip(front.len() as int);
        assert(rest =~= kept + back);
        assert forall|i: int| kept.len() <= i < rest.len() implies drop(#[trigger] rest[i]) by {
            assert(drop(back[i - kept.len()]));
        }
        text::lemma_trimmed_back(rest, drop, kept.len() as int);
        assert(rest.take(kept.len() as int) =~= kept);
    }
}

/// The white space around a text goes, that inside it stays.
pub proof fn law_space_is_trimmed(front: Seq<char>, kept: Seq<char>, back: Seq<char>)
    requires
        forall|i: int| 0 <= i < front.len() ==> text::white_space(#[trigger] front[i]),
        forall|i: int| 0 <= i < back.len() ==> text::white_space(#[trigger] back[i]),
        kept.len() > 0 ==> !text::white_space(kept[0]) && !text::white_space(kept.last()),
    ensures
        text::trimmed_space(front + kept + back) == kept,
{
    lemma_trimmed_between(front, kept, back, |c: char| text::white_space(c));
}

/// The copies of a character around a text go, those inside it stay.
pub proof fn law_char_is_trimmed(front: Seq<char>, kept: Seq<char>, back: Seq<char>, c: char)
    requires
        forall|i: int| 0 <= i < front.len() ==> #[trigger] front[i] == c,
        forall|i: int| 0 <= i < back.len() ==> #[trigger] back[i] == c,
        kept.len() > 0 ==> kept[0] != c && kept.last() != c,
    ensures
        text::trimmed_char(front + kept + back, c) == kept,
{
    lemma_trimmed_between(front, kept, back, text::being(c));
}

/// Among the ASCII characters, white space is the space and the controls from
/// the tab to the carriage return.
pub proof fn law_ascii_white_space(c: char)
    requires
        (c as u32) < 128,
    ensures
        text::white_space(c) <==> c == ' ' || 9 <= c as u32 <= 13,
{
}

/// Lists of texts are read item by item.
pub proof fn law_lists_item_by_item(texts: Seq<&str>, pairs: Seq<(&str, &str)>, lines: Seq<LogLine>)
    ensures
        text::views(texts).len() == texts.len(),
        forall|i: int| 0 <= i < texts.len() ==> #[trigger] text::views(texts)[i] == texts[i]@,
        container::pair_views(pairs).len() == pairs.len(),
        forall|i: int|
            0 <= i < pairs.len() ==> (#[trigger] container::pair_views(pairs)[i]).0 == pairs[i].0@
                && container::pair_views(pairs)[i].1 == pairs[i].1@,
        log::line_views(lines).len() == lines.len(),
        forall|i: int|
            0 <= i < lines.len() ==> (#[trigger] log::line_views(lines)[i]).0 == lines[i].level
                && log::line_views(lines)[i].1 == lines[i].message@,
{
}

/// A path is cut at its slashes.
proof fn lemma_segments_cut(a: Seq<char>, b: Seq<char>)
    ensures
        path::segments(a + seq!['/'] + b) == path::segments(a) + path::segments(b),
    decreases a.len(),
{
    let whole = a + seq!['/'] + b;
    let at = text::first_index(a, '/');
    text::lemma_first_index(a, '/');
    if at < a.len() {
        let rest = a.skip(at as int + 1);
        assert(whole =~= a + (seq!['/'] + b));
        text::lemma_first_index_front(a, seq!['/'] + b, '/');
        assert(whole.take(at as int) =~= a.take(at as int));
        assert(whole.skip(at as int + 1) =~= rest + seq!['/'] + b);
        lemma_segments_cut(rest, b);
        assert(path::segments(whole) =~= path::segments(a) + path::segments(b));
    } else {
        assert forall|i: int| 0 <= i < a.len() implies whole[i] != '/' by {
            assert(a[i] != '/');
        }
        text::lemma_first_index_unique(whole, '/', a.len());
        assert(whole.take(a.len() as int) =~= a);
        assert(whole.skip(a.len() as int + 1) =~= b);
        assert(path::segments(whole) =~= path::segments(a) + path::segments(b));
    }
}

/// The names in a path are those before a slash and then those after it.
pub proof fn law_names_around_a_slash(a: Seq<char>, b: Seq<char>)
    ensures
        path::names(a + seq!['/'] + b) == path::names(a) + path::names(b),
{
    lemma_segments_cut(a, b);
    Seq::filter_distributes_over_add(
        path::segments(a),
        path::segments(b),
        |segment: Seq<char>| path::is_name(segment),
    );
}

/// A text without a slash is a name, unless it is empty or a single dot.
pub proof fn law_one_name(name: Seq<char>)
    requires
        !name.contains('/'),
    ensures
        name.len() > 0 && name != seq!['.'] ==> path::names(name) == seq![name],
        name.len() == 0 || name == seq!['.'] ==> path::names(name).len() == 0,
{
    reveal_strlit(".");
    assert("."@ =~= seq!['.']);
    assert forall|i: int| 0 <= i < name.len() implies name[i] != '/' by {
        assert(name.contains(name[i]));
    }
    text::lemma_first_index_unique(name, '/', name.len());
    assert(path::segments(name) =~= seq![name]);
    reveal_with_fuel(Seq::filter, 2);
    assert(seq![name].drop_last() =~= Seq::empty());
    assert(seq![name].last() == name);
    if name.len() > 0 && name != seq!['.'] {
        assert(path::names(name) =~= seq![name]);
    }
}

/// Before its names a path has at most one component: the root if it starts with
/// a slash, a dot if it starts with that as a name.
pub proof fn law_components_before_names(p: Seq<char>)
    ensures
        p.len() > 0 && p[0] == '/' ==> path::components(p) == seq![seq!['/']] + path::names(p),
        p.len() > 0 && p[0] == '.' && (p.len() == 1 || p[1] == '/') ==> path::components(p)
            == seq![seq!['.']] + path::names(p),
        p.len() == 0 || (p[0] != '/' && !(p[0] == '.' && (p.len() == 1 || p[1] == '/')))
            ==> path::components(p) == path::names(p),
{
    reveal_strlit(".");
    reveal_strlit("/");
    assert("."@ =~= seq!['.']);
    assert("/"@ =~= seq!['/']);
    let at = text::first_index(p, '/');
    text::lemma_first_index(p, '/');
    if p.len() > 0 && p[0] == '.' && (p.len() == 1 || p[1] == '/') {
        text::lemma_first_index_unique(p, '/', 1);
        assert(p.take(1) =~= seq!['.']);
        if p.len() == 1 {
            assert(p =~= seq!['.']);
        }
    } else if p.len() > 0 && p[0] != '/' {
        let first = path::segments(p)[0];
        assert(first =~= p.take(at as int));
        if first == "."@ {
            assert(first.len() == 1);
            assert(first[0] == p[0]);
        }
    }
}

} // verus!
