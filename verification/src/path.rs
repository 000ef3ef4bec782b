//! Paths as seen from the host and from inside a container.

use vstd::prelude::*;

use crate::text;

verus! {

/// Where both toolbox and distrobox mount the host's root filesystem.
pub const HOST_ROOT: &'static str = "/run/host";

/// The texts between the slashes of `path`.
pub open spec fn segments(path: Seq<char>) -> Seq<Seq<char>>
    decreases path.len(),
{
    match text::split_at_first(path, '/') {
        Some((first, rest)) => seq![first] + segments(rest),
        None => seq![path],
    }
}

/// Whether `segment` is a component of a path wherever it stands.
pub open spec fn is_name(segment: Seq<char>) -> bool {
    segment.len() > 0 && segment != "."@
}

/// The names among the segments of `path`: an empty segment comes from a
/// repeated or trailing slash, and `.` means nothing after another component.
pub open spec fn names(path: Seq<char>) -> Seq<Seq<char>> {
    segments(path).filter(|segment: Seq<char>| is_name(segment))
}

/// Whether `path` starts at the root.
pub open spec fn is_absolute(path: Seq<char>) -> bool {
    path.len() > 0 && path[0] == '/'
}

/// The components of `path` on Unix: the root as `/` if the path is absolute, a
/// leading `.`, and the names. Paths with the same components are equal.
pub open spec fn components(path: Seq<char>) -> Seq<Seq<char>> {
    if is_absolute(path) {
        seq!["/"@] + names(path)
    } else if segments(path)[0] == "."@ {
        seq!["."@] + names(path)
    } else {
        names(path)
    }
}

/// What [`camino::Utf8Path::strip_prefix`] leaves of `path`, if `base` is a prefix.
pub uninterp spec fn stripped(path: Seq<char>, base: Seq<char>) -> Option<Seq<char>>;

/// What [`camino::Utf8Path::join`] makes of `base` and `path`.
pub uninterp spec fn joined(base: Seq<char>, path: Seq<char>) -> Seq<char>;

/// Calls [`camino::Utf8Path::strip_prefix`]. On Unix it succeeds when the
/// components of `base` are the first ones of `path`, and then returns a path
/// with the remaining ones; the result depends on the two texts alone. With
/// which separators the rest is written is left open.
#[verifier::external_body]
fn strip_prefix(path: &str, base: &str) -> (rest: Option<String>)
    ensures
        match stripped(path@, base@) {
            Some(text) => rest is Some && rest->0@ == text,
            None => rest is None,
        },
        rest is Some <==> components(base@).is_prefix_of(components(path@)),
        rest is Some ==> components(path@) == components(base@) + components(rest->0@),
{
    match camino::Utf8Path::new(path).strip_prefix(base) {
        Ok(rest) => Some(rest.as_str().to_owned()),
        Err(_) => None,
    }
}

/// Calls [`camino::Utf8Path::join`]. On Unix an absolute `path` replaces `base`,
/// and the names of any other one follow the components of `base`; the result
/// depends on the two texts alone. With which separators it is written is left
/// open.
#[verifier::external_body]
fn join(base: &str, path: &str) -> (whole: String)
    ensures
        whole@ == joined(base@, path@),
        is_absolute(path@) ==> whole@ == path@,
        !is_absolute(path@) && base@.len() > 0 ==> components(whole@) == components(base@) + names(
            path@,
        ),
{
    camino::Utf8Path::new(base).join(path).into_string()
}

/// The text of the path at which `path` on the host is visible.
pub open spec fn path_on_host(path: Seq<char>) -> Seq<char> {
    joined(
        HOST_ROOT@,
        match stripped(path, "/"@) {
            Some(rest) => rest,
            None => path,
        },
    )
}

/// Segments hold no slash.
proof fn lemma_segments(path: Seq<char>)
    ensures
        segments(path).len() > 0,
        forall|i: int| 0 <= i < segments(path).len() ==> !(#[trigger] segments(path)[i]).contains('/'),
    decreases path.len(),
{
    text::lemma_first_index(path, '/');
    match text::split_at_first(path, '/') {
        Some((first, rest)) => {
            lemma_segments(rest);
            assert forall|i: int| 0 <= i < segments(path).len() implies !(
            #[trigger] segments(path)[i]).contains('/') by {
                if i > 0 {
                    assert(segments(path)[i] == segments(rest)[i - 1]);
                }
            }
        },
        None => {},
    }
}

/// What a filter keeps was there before, and is to be kept.
proof fn lemma_filtered(all: Seq<Seq<char>>, keep: spec_fn(Seq<char>) -> bool, i: int)
    requires
        0 <= i < all.filter(keep).len(),
    ensures
        all.contains(all.filter(keep)[i]),
        keep(all.filter(keep)[i]),
    decreases all.len(),
{
    reveal(Seq::filter);
    let init = all.drop_last();
    if i < init.filter(keep).len() {
        lemma_filtered(init, keep, i);
        let j = init.index_of(init.filter(keep)[i]);
        assert(all[j] == init[j]);
    } else {
        assert(all[all.len() - 1] == all.last());
    }
}

/// A name holds no slash and is not `.`.
proof fn lemma_name(path: Seq<char>, i: int)
    requires
        0 <= i < names(path).len(),
    ensures
        names(path)[i] != "/"@,
        names(path)[i] != "."@,
{
    reveal_strlit("/");
    lemma_segments(path);
    lemma_filtered(segments(path), |segment: Seq<char>| is_name(segment), i);
    let at = segments(path).index_of(names(path)[i]);
    assert(!segments(path)[at].contains('/'));
    assert("/"@[0] == '/');
}

/// A path whose components are the names of another has just these names.
proof fn lemma_relative(path: Seq<char>, rest: Seq<char>)
    requires
        components(rest) == names(path),
    ensures
        !is_absolute(rest),
        names(rest) == names(path),
{
    if is_absolute(rest) {
        assert(components(rest)[0] == "/"@);
        lemma_name(path, 0);
    } else if segments(rest)[0] == "."@ {
        assert(components(rest)[0] == "."@);
        lemma_name(path, 0);
    }
}

/// The root is the first component of the absolute paths alone.
proof fn lemma_root_prefix(path: Seq<char>)
    ensures
        components("/"@) == seq!["/"@],
        components("/"@).is_prefix_of(components(path)) <==> is_absolute(path),
{
    reveal_strlit("/");
    reveal_strlit(".");
    let root = "/"@;
    assert(text::first_index(root, '/') == 0);
    assert(root.skip(1) =~= Seq::empty());
    assert(root.take(0) =~= Seq::empty());
    assert(text::first_index(Seq::<char>::empty(), '/') == 0);
    assert(segments(Seq::<char>::empty()) =~= seq![Seq::<char>::empty()]);
    assert(segments(root) =~= seq![Seq::<char>::empty(), Seq::<char>::empty()]);
    assert(names(root) =~= Seq::empty()) by {
        reveal_with_fuel(Seq::filter, 3);
        assert(segments(root).drop_last() =~= seq![Seq::<char>::empty()]);
        assert(segments(root).drop_last().drop_last() =~= Seq::empty());
    }
    assert(components(root) =~= seq![root]);
    if is_absolute(path) {
        assert(components(path)[0] == root);
    } else if components(root).is_prefix_of(components(path)) {
        assert(components(path)[0] == components(root)[0]);
        if segments(path)[0] == "."@ {
            assert("."@[0] != root[0]);
        } else {
            lemma_name(path, 0);
        }
        assert(false);
    }
}

/// The path at which `path` in the host's root filesystem is visible from
/// inside a toolbox or distrobox container: the host's root, then the names of
/// `path`.
pub fn host_path(path: &str) -> (on_host: String)
    ensures
        on_host@ == path_on_host(path@),
        components(on_host@) == components(HOST_ROOT@) + names(path@),
{
    proof {
        reveal_strlit("/run/host");
        lemma_root_prefix(path@);
    }
    match strip_prefix(path, "/") {
        Some(rest) => {
            proof {
                assert(components(rest@) =~= components(path@).skip(1));
                assert(names(path@) =~= components(path@).skip(1));
                lemma_relative(path@, rest@);
            }
            join(HOST_ROOT, rest.as_str())
        },
        None => join(HOST_ROOT, path),
    }
}

} // verus!
