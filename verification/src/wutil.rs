//! Paths as text: the last component of a path, and what comes before it. Both follow the
//! recipes that POSIX gives for `basename` and `dirname`.

use vstd::prelude::*;

verus! {

/// `path` without the slashes at its end.
pub open spec fn trimmed(path: Seq<char>) -> Seq<char>
    decreases path.len(),
{
    if path.len() > 0 && path.last() == '/' {
        trimmed(path.drop_last())
    } else {
        path
    }
}

/// The number of characters of `path` up to and including its last slash; zero if it has none.
pub open spec fn through_last_slash(path: Seq<char>) -> int
    decreases path.len(),
{
    if path.len() == 0 || path.last() == '/' {
        path.len() as int
    } else {
        through_last_slash(path.drop_last())
    }
}

/// The last component of `path`.
pub open spec fn basename(path: Seq<char>) -> Seq<char> {
    if path.len() == 0 {
        "."@
    } else if trimmed(path).len() == 0 {
        "/"@
    } else {
        trimmed(path).skip(through_last_slash(trimmed(path)))
    }
}

/// The directory that `path` lies in.
pub open spec fn dirname(path: Seq<char>) -> Seq<char> {
    let name = trimmed(path);
    let parent = name.take(through_last_slash(name));
    if path == "//"@ {
        path
    } else if path.len() > 0 && name.len() == 0 {
        "/"@
    } else if parent.len() == 0 {
        "."@
    } else if trimmed(parent).len() == 0 {
        "/"@
    } else {
        trimmed(parent)
    }
}

/// Drops the slashes at the end of `path`.
fn trim<'a>(path: &'a str) -> (r: &'a str)
    ensures
        r@ == trimmed(path@),
{
    let mut end: usize = path.unicode_len();
    assert(path@.take(end as int) =~= path@);
    while end > 0 && path.get_char(end - 1) == '/'
        invariant
            end <= path@.len(),
            trimmed(path@.take(end as int)) == trimmed(path@),
        decreases end,
    {
        assert(path@.take(end as int).drop_last() =~= path@.take(end - 1));
        end = end - 1;
    }
    path.substring_char(0, end)
}

/// How many characters of `path` there are up to and including its last slash.
fn find_last_slash(path: &str) -> (end: usize)
    ensures
        end == through_last_slash(path@),
        end <= path@.len(),
{
    let mut end: usize = path.unicode_len();
    assert(path@.take(end as int) =~= path@);
    while end > 0 && path.get_char(end - 1) != '/'
        invariant
            end <= path@.len(),
            through_last_slash(path@.take(end as int)) == through_last_slash(path@),
        decreases end,
    {
        assert(path@.take(end as int).drop_last() =~= path@.take(end - 1));
        end = end - 1;
    }
    end
}

/// The last component of `path`.
pub fn wbasename<'a>(path: &'a str) -> (r: &'a str)
    ensures
        r@ == basename(path@),
{
    if path.is_empty() {
        return ".";
    }
    let name = trim(path);
    if name.is_empty() {
        return "/";
    }
    let start: usize = find_last_slash(name);
    let end: usize = name.unicode_len();
    assert(name@.subrange(start as int, end as int) =~= name@.skip(start as int));
    name.substring_char(start, end)
}

/// The directory that `path` lies in.
pub fn wdirname<'a>(path: &'a str) -> (r: &'a str)
    ensures
        r@ == dirname(path@),
{
    if crate::text::same(path, "//") {
        return path;
    }
    let name = trim(path);
    if !path.is_empty() && name.is_empty() {
        return "/";
    }
    let end: usize = find_last_slash(name);
    if end == 0 {
        return ".";
    }
    let parent = name.substring_char(0, end);
    assert(parent@ =~= name@.take(end as int));
    let parent = trim(parent);
    if parent.is_empty() {
        return "/";
    }
    parent
}

/// Whether `s` is nothing but slashes.
pub open spec fn all_slashes(s: Seq<char>) -> bool {
    forall|i: int| 0 <= i < s.len() ==> s[i] == '/'
}

/// Whether `s` is one component of a path.
pub open spec fn is_component(s: Seq<char>) -> bool {
    s.len() > 0 && forall|i: int| 0 <= i < s.len() ==> s[i] != '/'
}

/// Slashes at the end of a path are dropped, and nothing else.
pub proof fn law_trailing_slashes_go(path: Seq<char>, slashes: Seq<char>)
    requires
        path.len() == 0 || path.last() != '/',
        all_slashes(slashes),
    ensures
        trimmed(path + slashes) == path,
    decreases slashes.len(),
{
    if slashes.len() == 0 {
        assert(path + slashes =~= path);
    } else {
        assert((path + slashes).drop_last() =~= path + slashes.drop_last());
        law_trailing_slashes_go(path, slashes.drop_last());
    }
}

/// The last slash is the one before the last component.
proof fn lemma_last_slash(prefix: Seq<char>, name: Seq<char>)
    requires
        prefix.len() == 0 || prefix.last() == '/',
        forall|i: int| 0 <= i < name.len() ==> name[i] != '/',
    ensures
        through_last_slash(prefix + name) == prefix.len(),
    decreases name.len(),
{
    if name.len() == 0 {
        assert(prefix + name =~= prefix);
    } else {
        assert((prefix + name).drop_last() =~= prefix + name.drop_last());
        lemma_last_slash(prefix, name.drop_last());
    }
}

/// The base name is the last component, whatever stands before its slash and however many slashes
/// follow.
pub proof fn law_basename_is_last_component(
    prefix: Seq<char>,
    name: Seq<char>,
    slashes: Seq<char>,
)
    requires
        prefix.len() == 0 || prefix.last() == '/',
        is_component(name),
        all_slashes(slashes),
    ensures
        basename(prefix + name + slashes) == name,
{
    assert((prefix + name).last() != '/');
    law_trailing_slashes_go(prefix + name, slashes);
    lemma_last_slash(prefix, name);
    assert((prefix + name).skip(prefix.len() as int) =~= name);
}

/// Every path that is not all slashes is a prefix that is empty or ends with a slash, a component,
/// and slashes; and its base name is that component.
pub proof fn law_basename_is_a_component(path: Seq<char>) -> (parts: (Seq<char>, Seq<char>))
    requires
        !all_slashes(path),
    ensures
        is_component(basename(path)),
        path == parts.0 + basename(path) + parts.1,
        parts.0.len() == 0 || parts.0.last() == '/',
        all_slashes(parts.1),
{
    let (kept, slashes) = lemma_trailing_slashes(path);
    let n = lemma_component(kept);
    let prefix = kept.take(n);
    let name = kept.skip(n);
    assert(kept =~= prefix + name);
    assert(path =~= prefix + name + slashes);
    assert(kept.last() == name.last());
    law_basename_is_last_component(prefix, name, slashes);
    (prefix, slashes)
}

/// A path is something that does not end with a slash, and slashes.
proof fn lemma_trailing_slashes(path: Seq<char>) -> (parts: (Seq<char>, Seq<char>))
    requires
        !all_slashes(path),
    ensures
        path == parts.0 + parts.1,
        parts.0.len() > 0,
        parts.0.last() != '/',
        all_slashes(parts.1),
    decreases path.len(),
{
    if path.last() == '/' {
        let shorter = path.drop_last();
        if all_slashes(shorter) {
            assert forall|i: int| 0 <= i < path.len() implies path[i] == '/' by {
                if i < path.len() - 1 {
                    assert(shorter[i] == '/');
                }
            }
        }
        let (kept, slashes) = lemma_trailing_slashes(shorter);
        assert(path =~= shorter.push('/'));
        assert(path =~= kept + slashes.push('/'));
        (kept, slashes.push('/'))
    } else {
        assert(path =~= path + Seq::<char>::empty());
        (path, seq![])
    }
}

/// The place behind the last slash of a path.
proof fn lemma_component(path: Seq<char>) -> (n: int)
    ensures
        0 <= n <= path.len(),
        n == 0 || path[n - 1] == '/',
        forall|i: int| n <= i < path.len() ==> path[i] != '/',
    decreases path.len(),
{
    if path.len() == 0 || path.last() == '/' {
        path.len() as int
    } else {
        let n = lemma_component(path.drop_last());
        assert forall|i: int| n <= i < path.len() implies path[i] != '/' by {
            if i < path.len() - 1 {
                assert(path.drop_last()[i] != '/');
            }
        }
        n
    }
}

/// The directory of a path with two or more components is what stands before the slashes before
/// the last one; of a path at the root it is the root.
pub proof fn law_dirname_is_parent(
    parent: Seq<char>,
    gap: Seq<char>,
    name: Seq<char>,
    slashes: Seq<char>,
)
    requires
        parent.len() == 0 || parent.last() != '/',
        gap.len() > 0,
        all_slashes(gap),
        is_component(name),
        all_slashes(slashes),
    ensures
        parent.len() > 0 ==> dirname(parent + gap + name + slashes) == parent,
        parent.len() == 0 ==> dirname(parent + gap + name + slashes) == "/"@,
{
    let kept = parent + gap + name;
    let path = kept + slashes;
    assert(kept.last() == name.last());
    law_trailing_slashes_go(kept, slashes);
    lemma_last_slash(parent + gap, name);
    assert(kept.take((parent + gap).len() as int) =~= parent + gap);
    law_trailing_slashes_go(parent, gap);
    reveal_strlit("//");
    assert(path[(parent + gap).len() as int] == name[0]);
    assert(!all_slashes(path));
    assert(path != "//"@);
}

/// A path of one component lies in the current directory.
pub proof fn law_dirname_of_a_component(name: Seq<char>, slashes: Seq<char>)
    requires
        is_component(name),
        all_slashes(slashes),
    ensures
        dirname(name + slashes) == "."@,
{
    law_trailing_slashes_go(name, slashes);
    lemma_last_slash(seq![], name);
    assert(Seq::<char>::empty() + name =~= name);
    reveal_strlit("//");
    assert((name + slashes)[0] == name[0]);
}

/// The paths without a component: the empty one stands for the current directory, and slashes
/// stand for the root, but two of them may mean something else and are left alone.
pub proof fn law_paths_without_component(path: Seq<char>)
    requires
        all_slashes(path),
    ensures
        path.len() == 0 ==> basename(path) == "."@ && dirname(path) == "."@,
        path.len() > 0 ==> basename(path) == "/"@,
        path.len() == 2 ==> dirname(path) == path,
        path.len() == 1 || path.len() > 2 ==> dirname(path) == "/"@,
{
    reveal_strlit("//");
    law_trailing_slashes_go(seq![], path);
    assert(Seq::<char>::empty() + path =~= path);
    assert(path.len() == 2 ==> path =~= "//"@);
    if path.len() == 0 {
        assert(path.take(0) =~= path);
    }
}

} // verus!
