//! Reading text as a sequence of characters: line splitting, searching and
//! trimming, each with the meaning of the `str` method of the same name.

use vstd::prelude::*;
use vstd::string::StrSliceExecFns;

verus! {

/// Whether `c` has the Unicode property `White_Space`.
pub open spec fn white_space(c: char) -> bool {
    ||| '\u{9}' <= c <= '\u{d}'
    ||| c == '\u{20}'
    ||| c == '\u{85}'
    ||| c == '\u{a0}'
    ||| c == '\u{1680}'
    ||| '\u{2000}' <= c <= '\u{200a}'
    ||| c == '\u{2028}'
    ||| c == '\u{2029}'
    ||| c == '\u{202f}'
    ||| c == '\u{205f}'
    ||| c == '\u{3000}'
}

/// The number of characters before the first `c`; all of them if there is none.
pub open spec fn first_index(s: Seq<char>, c: char) -> nat
    decreases s.len(),
{
    if s.len() == 0 || s[0] == c {
        0
    } else {
        1 + first_index(s.skip(1), c)
    }
}

/// `line` without one carriage return at its end.
pub open spec fn without_carriage_return(line: Seq<char>) -> Seq<char> {
    if line.len() > 0 && line.last() == '\r' {
        line.drop_last()
    } else {
        line
    }
}

/// The lines of `s`. A line ends with `\n` or `\r\n`, neither of which is part
/// of it; the last one may end with the text instead.
pub open spec fn lines_of(s: Seq<char>) -> Seq<Seq<char>>
    decreases s.len(),
{
    let end = first_index(s, '\n');
    if s.len() == 0 {
        Seq::empty()
    } else if end >= s.len() {
        seq![s]
    } else {
        seq![without_carriage_return(s.take(end as int))] + lines_of(s.skip(end as int + 1))
    }
}

/// What stands before and after the first `c` in `s`.
pub open spec fn split_at_first(s: Seq<char>, c: char) -> Option<(Seq<char>, Seq<char>)> {
    let at = first_index(s, c);
    if at < s.len() {
        Some((s.take(at as int), s.skip(at as int + 1)))
    } else {
        None
    }
}

/// `s` without the characters at its front that satisfy `drop`.
pub open spec fn trimmed_front(s: Seq<char>, drop: spec_fn(char) -> bool) -> Seq<char>
    decreases s.len(),
{
    if s.len() > 0 && drop(s[0]) {
        trimmed_front(s.skip(1), drop)
    } else {
        s
    }
}

/// `s` without the characters at its back that satisfy `drop`.
pub open spec fn trimmed_back(s: Seq<char>, drop: spec_fn(char) -> bool) -> Seq<char>
    decreases s.len(),
{
    if s.len() > 0 && drop(s.last()) {
        trimmed_back(s.drop_last(), drop)
    } else {
        s
    }
}

/// `s` without the characters at both ends that satisfy `drop`.
pub open spec fn trimmed(s: Seq<char>, drop: spec_fn(char) -> bool) -> Seq<char> {
    trimmed_back(trimmed_front(s, drop), drop)
}

/// `s` without the white space around it.
pub open spec fn trimmed_space(s: Seq<char>) -> Seq<char> {
    trimmed(s, |c: char| white_space(c))
}

/// The test for being `c`.
pub open spec fn being(c: char) -> spec_fn(char) -> bool {
    |d: char| d == c
}

/// `s` without the copies of `c` around it.
pub open spec fn trimmed_char(s: Seq<char>, c: char) -> Seq<char> {
    trimmed(s, being(c))
}

/// Whether `part` stands in `s` at position `at`.
pub open spec fn stands_at(s: Seq<char>, part: Seq<char>, at: int) -> bool {
    &&& 0 <= at <= s.len() - part.len()
    &&& s.subrange(at, at + part.len()) == part
}

/// Whether `part` stands anywhere in `s`.
pub open spec fn has_part(s: Seq<char>, part: Seq<char>) -> bool {
    exists|at: int| stands_at(s, part, at)
}

/// The texts that `v` refers to.
pub open spec fn views(v: Seq<&str>) -> Seq<Seq<char>> {
    v.map_values(|s: &str| s@)
}

pub proof fn lemma_first_index(s: Seq<char>, c: char)
    ensures
        first_index(s, c) <= s.len(),
        forall|i: int| 0 <= i < first_index(s, c) ==> s[i] != c,
        first_index(s, c) < s.len() ==> s[first_index(s, c) as int] == c,
    decreases s.len(),
{
    if s.len() > 0 && s[0] != c {
        lemma_first_index(s.skip(1), c);
        assert forall|i: int| 0 <= i < first_index(s, c) implies s[i] != c by {
            if i > 0 {
                assert(s.skip(1)[i - 1] == s[i]);
            }
        }
    }
}

/// `first_index` is the one index that `lemma_first_index` describes.
pub proof fn lemma_first_index_unique(s: Seq<char>, c: char, at: nat)
    requires
        at <= s.len(),
        forall|i: int| 0 <= i < at ==> s[i] != c,
        at < s.len() ==> s[at as int] == c,
    ensures
        first_index(s, c) == at,
{
    lemma_first_index(s, c);
    if first_index(s, c) < at {
        assert(s[first_index(s, c) as int] != c);
    }
}

/// Trimming the front takes off the longest run of characters to drop.
pub proof fn lemma_trimmed_front(s: Seq<char>, drop: spec_fn(char) -> bool, from: int)
    requires
        0 <= from <= s.len(),
        forall|i: int| 0 <= i < from ==> drop(#[trigger] s[i]),
        from < s.len() ==> !drop(s[from]),
    ensures
        trimmed_front(s, drop) == s.skip(from),
    decreases s.len(),
{
    if from == 0 {
        assert(s.skip(0) =~= s);
    } else {
        assert(drop(s[0]));
        assert forall|i: int| 0 <= i < from - 1 implies drop(#[trigger] s.skip(1)[i]) by {
            assert(drop(s[i + 1]));
        }
        lemma_trimmed_front(s.skip(1), drop, from - 1);
        assert(s.skip(1).skip(from - 1) =~= s.skip(from));
    }
}

/// Trimming the back takes off the longest run of characters to drop.
pub proof fn lemma_trimmed_back(s: Seq<char>, drop: spec_fn(char) -> bool, to: int)
    requires
        0 <= to <= s.len(),
        forall|i: int| to <= i < s.len() ==> drop(#[trigger] s[i]),
        to > 0 ==> !drop(s[to - 1]),
    ensures
        trimmed_back(s, drop) == s.take(to),
    decreases s.len(),
{
    if to == s.len() {
        assert(s.take(to) =~= s);
    } else {
        assert(drop(s.last()));
        assert forall|i: int| to <= i < s.drop_last().len() implies drop(
            #[trigger] s.drop_last()[i],
        ) by {
            assert(drop(s[i]));
        }
        lemma_trimmed_back(s.drop_last(), drop, to);
        assert(s.drop_last().take(to) =~= s.take(to));
    }
}

/// A character to drop at the back makes no difference to what is left.
pub proof fn lemma_trimmed_push(s: Seq<char>, drop: spec_fn(char) -> bool, c: char)
    requires
        drop(c),
    ensures
        trimmed(s.push(c), drop) == trimmed(s, drop),
    decreases s.len(),
{
    let more = s.push(c);
    if s.len() == 0 {
        assert(more.skip(1) =~= Seq::empty());
        assert(trimmed_front(Seq::<char>::empty(), drop) =~= Seq::empty());
    } else if drop(s[0]) {
        assert(more.skip(1) =~= s.skip(1).push(c));
        assert(more[0] == s[0]);
        lemma_trimmed_push(s.skip(1), drop, c);
    } else {
        assert(more[0] == s[0]);
        assert(more.drop_last() =~= s);
    }
}

/// Nothing is trimmed off a text whose ends are to be kept.
pub proof fn lemma_trimmed_nothing(s: Seq<char>, drop: spec_fn(char) -> bool)
    requires
        s.len() > 0 ==> !drop(s[0]) && !drop(s.last()),
    ensures
        trimmed(s, drop) == s,
{
}

/// A text is the same with a carriage return at its end when it comes to
/// holding `part`, unless that ends with one.
pub proof fn lemma_part_without_carriage_return(line: Seq<char>, part: Seq<char>)
    requires
        part.len() > 0,
        part.last() != '\r',
    ensures
        has_part(without_carriage_return(line), part) == has_part(line, part),
{
    let bare = without_carriage_return(line);
    if has_part(bare, part) {
        let at = choose|at: int| stands_at(bare, part, at);
        assert(line.subrange(at, at + part.len()) =~= bare.subrange(at, at + part.len()));
        assert(stands_at(line, part, at));
    }
    if has_part(line, part) {
        let at = choose|at: int| stands_at(line, part, at);
        assert(line.subrange(at, at + part.len()).last() == line[at + part.len() - 1]);
        assert(at + part.len() <= bare.len());
        assert(bare.subrange(at, at + part.len()) =~= line.subrange(at, at + part.len()));
        assert(stands_at(bare, part, at));
    }
}

/// `first_index` looks no further than the first match.
pub proof fn lemma_first_index_front(a: Seq<char>, b: Seq<char>, c: char)
    requires
        first_index(a, c) < a.len(),
    ensures
        first_index(a + b, c) == first_index(a, c),
{
    lemma_first_index(a, c);
    lemma_first_index_unique(a + b, c, first_index(a, c));
}

/// Text before a line feed and text after it are split into lines on their own.
pub proof fn lemma_lines_after_feed(a: Seq<char>, b: Seq<char>)
    ensures
        lines_of(a.push('\n') + b) == lines_of(a.push('\n')) + lines_of(b),
    decreases a.len(),
{
    let fed = a.push('\n');
    let whole = fed + b;
    let end = first_index(fed, '\n');
    lemma_first_index(fed, '\n');
    assert(fed[a.len() as int] == '\n');
    assert(end < fed.len());
    lemma_first_index_front(fed, b, '\n');
    assert(whole.take(end as int) =~= fed.take(end as int));
    if end < a.len() {
        let rest = a.skip(end as int + 1);
        assert(fed.skip(end as int + 1) =~= rest.push('\n'));
        assert(whole.skip(end as int + 1) =~= rest.push('\n') + b);
        lemma_lines_after_feed(rest, b);
    } else {
        assert(fed.skip(end as int + 1) =~= Seq::empty());
        assert(whole.skip(end as int + 1) =~= b);
    }
    assert(lines_of(Seq::<char>::empty()) =~= Seq::empty());
    assert(lines_of(whole) =~= lines_of(fed) + lines_of(b));
}

/// A text without a line feed is, with one at its end, a single line.
pub proof fn lemma_single_line(line: Seq<char>)
    requires
        !line.contains('\n'),
    ensures
        lines_of(line.push('\n')) == seq![without_carriage_return(line)],
{
    let fed = line.push('\n');
    assert forall|i: int| 0 <= i < line.len() implies fed[i] != '\n' by {
        assert(line.contains(line[i]));
    }
    lemma_first_index_unique(fed, '\n', line.len());
    assert(fed.take(line.len() as int) =~= line);
    assert(fed.skip(line.len() as int + 1) =~= Seq::empty());
    assert(lines_of(Seq::<char>::empty()) =~= Seq::empty());
    assert(lines_of(fed) =~= seq![without_carriage_return(line)]);
}

/// A line feed at the end of a text only concerns what follows the line feed
/// before it.
pub proof fn lemma_fed_lines(a: Seq<char>)
    ensures
        first_index(a, '\n') < a.len() ==> first_index(a.push('\n'), '\n') == first_index(a, '\n')
            && a.push('\n').skip(first_index(a, '\n') as int + 1) == a.skip(
            first_index(a, '\n') as int + 1,
        ).push('\n') && a.push('\n').take(first_index(a, '\n') as int) == a.take(
            first_index(a, '\n') as int,
        ),
        first_index(a, '\n') >= a.len() ==> lines_of(a) == (if a.len() == 0 {
            Seq::empty()
        } else {
            seq![a]
        }) && lines_of(a.push('\n')) == seq![without_carriage_return(a)],
{
    let end = first_index(a, '\n');
    lemma_first_index(a, '\n');
    if end < a.len() {
        assert(a.push('\n') =~= a + seq!['\n']);
        lemma_first_index_front(a, seq!['\n'], '\n');
        assert(a.push('\n').skip(end as int + 1) =~= a.skip(end as int + 1).push('\n'));
        assert(a.push('\n').take(end as int) =~= a.take(end as int));
    } else {
        assert(!a.contains('\n'));
        lemma_single_line(a);
    }
}

/// The characters of `s`, in order.
pub fn chars_of(s: &str) -> (chars: Vec<char>)
    ensures
        chars@ == s@,
{
    let mut chars: Vec<char> = Vec::new();
    for c in it: s.chars()
        invariant
            it.seq() == s@,
            chars@ == s@.take(it.index()),
    {
        assert(s@.take(it.index() + 1) =~= s@.take(it.index()).push(c));
        chars.push(c);
    }
    assert(s@.take(s@.len() as int) =~= s@);
    chars
}

/// Whether `c` is white space, as `char::is_whitespace` has it.
pub fn is_white_space(c: char) -> (r: bool)
    ensures
        r == white_space(c),
{
    ('\u{9}' <= c && c <= '\u{d}') || c == '\u{20}' || c == '\u{85}' || c == '\u{a0}' || c
        == '\u{1680}' || ('\u{2000}' <= c && c <= '\u{200a}') || c == '\u{2028}' || c == '\u{2029}'
        || c == '\u{202f}' || c == '\u{205f}' || c == '\u{3000}'
}

/// The index of the first `c` at `from` or later; the length if there is none.
fn find_from(chars: &Vec<char>, from: usize, c: char) -> (at: usize)
    requires
        from <= chars@.len(),
    ensures
        at == from + first_index(chars@.skip(from as int), c),
        from <= at <= chars@.len(),
{
    let mut at: usize = from;
    while at < chars.len() && chars[at] != c
        invariant
            from <= at <= chars@.len(),
            forall|i: int| from <= i < at ==> chars@[i] != c,
        decreases chars@.len() - at,
    {
        at = at + 1;
    }
    proof {
        lemma_first_index_unique(chars@.skip(from as int), c, (at - from) as nat);
    }
    at
}

/// The lines of `s`, as `str::lines` yields them.
pub fn lines<'a>(s: &'a str) -> (out: Vec<&'a str>)
    ensures
        views(out@) == lines_of(s@),
{
    let chars = chars_of(s);
    let n: usize = chars.len();
    let mut out: Vec<&'a str> = Vec::new();
    let mut start: usize = 0;
    assert(s@.skip(0) =~= s@);
    while start < n
        invariant
            n == chars@.len(),
            chars@ == s@,
            start <= n,
            views(out@) + lines_of(s@.skip(start as int)) =~= lines_of(s@),
        decreases n - start,
    {
        let end: usize = find_from(&chars, start, '\n');
        let ghost rest = s@.skip(start as int);
        let ghost before = out@;
        let mut stop: usize = end;
        if end < n && end > start && chars[end - 1] == '\r' {
            stop = end - 1;
        }
        let line = s.substring_char(start, stop);
        out.push(line);
        proof {
            assert(views(out@) =~= views(before).push(line@));
            if end < n {
                let whole = rest.take(end - start);
                assert(whole =~= s@.subrange(start as int, end as int));
                assert(line@ =~= without_carriage_return(whole));
                assert(rest.skip(end - start + 1) =~= s@.skip(end + 1));
            } else {
                assert(line@ =~= rest);
                assert(s@.skip(n as int) =~= Seq::empty());
            }
        }
        start = if end < n {
            end + 1
        } else {
            n
        };
    }
    assert(s@.skip(n as int) =~= Seq::empty());
    out
}

/// What stands before and after the first `c` in `s`, as `str::split_once` has it.
pub fn split_once<'a>(s: &'a str, c: char) -> (parts: Option<(&'a str, &'a str)>)
    ensures
        match split_at_first(s@, c) {
            Some((before, after)) => parts matches Some((b, a)) && b@ == before && a@ == after,
            None => parts is None,
        },
{
    let chars = chars_of(s);
    let at: usize = find_from(&chars, 0, c);
    assert(s@.skip(0) =~= s@);
    if at < chars.len() {
        let before = s.substring_char(0, at);
        let after = s.substring_char(at + 1, chars.len());
        assert(before@ =~= s@.take(at as int));
        assert(after@ =~= s@.skip(at + 1));
        Some((before, after))
    } else {
        None
    }
}

/// `s` without the characters at both ends for which `drops` answers `true`.
fn trim_by<'a, F: Fn(char) -> bool>(
    s: &'a str,
    drops: F,
    Ghost(drop): Ghost<spec_fn(char) -> bool>,
) -> (rest: &'a str)
    requires
        forall|c: char| drops.requires((c,)),
        forall|c: char, b: bool| drops.ensures((c,), b) ==> b == drop(c),
    ensures
        rest@ == trimmed(s@, drop),
{
    let chars = chars_of(s);
    let n: usize = chars.len();
    let mut from: usize = 0;
    while from < n && drops(chars[from])
        invariant
            n == chars@.len(),
            from <= n,
            forall|c: char| drops.requires((c,)),
            forall|c: char, b: bool| drops.ensures((c,), b) ==> b == drop(c),
            forall|i: int| 0 <= i < from ==> drop(#[trigger] chars@[i]),
        ensures
            from <= n,
            forall|i: int| 0 <= i < from ==> drop(#[trigger] chars@[i]),
            from < n ==> !drop(chars@[from as int]),
        decreases n - from,
    {
        from = from + 1;
    }
    let mut to: usize = n;
    while to > from && drops(chars[to - 1])
        invariant
            n == chars@.len(),
            from <= to <= n,
            forall|c: char| drops.requires((c,)),
            forall|c: char, b: bool| drops.ensures((c,), b) ==> b == drop(c),
            forall|i: int| to <= i < n ==> drop(#[trigger] chars@[i]),
        ensures
            from <= to <= n,
            forall|i: int| to <= i < n ==> drop(#[trigger] chars@[i]),
            to > from ==> !drop(chars@[to - 1]),
        decreases to,
    {
        to = to - 1;
    }
    let rest = s.substring_char(from, to);
    proof {
        lemma_trimmed_front(s@, drop, from as int);
        lemma_trimmed_back(s@.skip(from as int), drop, to - from);
        assert(rest@ =~= s@.skip(from as int).take(to - from));
    }
    rest
}

/// `s` without the white space around it, as `str::trim` has it.
pub fn trim<'a>(s: &'a str) -> (rest: &'a str)
    ensures
        rest@ == trimmed_space(s@),
{
    trim_by(s, is_white_space, Ghost(|c: char| white_space(c)))
}

/// `s` without the copies of `c` around it, as `str::trim_matches` has it.
pub fn trim_matches<'a>(s: &'a str, c: char) -> (rest: &'a str)
    ensures
        rest@ == trimmed_char(s@, c),
{
    let drops = |d: char| -> (b: bool)
        ensures
            b == (d == c),
    { d == c };
    trim_by(s, drops, Ghost(being(c)))
}

/// Whether `part` stands in `s` at `at`.
fn stands_here(s: &Vec<char>, part: &Vec<char>, at: usize) -> (r: bool)
    requires
        at + part@.len() <= s@.len(),
    ensures
        r == stands_at(s@, part@, at as int),
{
    let n: usize = s.len();
    let mut i: usize = 0;
    while i < part.len()
        invariant
            n == s@.len(),
            at + part@.len() <= s@.len(),
            i <= part@.len(),
            forall|j: int| 0 <= j < i ==> s@[at + j] == part@[j],
        decreases part@.len() - i,
    {
        if s[at + i] != part[i] {
            assert(s@.subrange(at as int, at + part@.len())[i as int] != part@[i as int]);
            return false;
        }
        i = i + 1;
    }
    assert(s@.subrange(at as int, at + part@.len()) =~= part@);
    true
}

/// Whether `part` stands anywhere in `s`, as `str::contains` has it.
pub fn contains(s: &str, part: &str) -> (r: bool)
    ensures
        r == has_part(s@, part@),
{
    let chars = chars_of(s);
    let part_chars = chars_of(part);
    let mut at: usize = 0;
    while at <= chars.len() && part_chars.len() <= chars.len() - at
        invariant
            chars@ == s@,
            part_chars@ == part@,
            at <= chars@.len() + 1,
            forall|i: int| 0 <= i < at ==> !stands_at(s@, part@, i),
        decreases chars@.len() + 1 - at,
    {
        if stands_here(&chars, &part_chars, at) {
            return true;
        }
        if at == chars.len() {
            return false;
        }
        at = at + 1;
    }
    false
}

/// Whether `s` and `t` are the same text.
pub fn same(s: &str, t: &str) -> (r: bool)
    ensures
        r == (s@ == t@),
{
    let s_chars = chars_of(s);
    let t_chars = chars_of(t);
    if s_chars.len() != t_chars.len() {
        return false;
    }
    let r = stands_here(&s_chars, &t_chars, 0);
    assert(s@.subrange(0, s@.len() as int) =~= s@);
    r
}

} // verus!
