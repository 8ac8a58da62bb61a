//! Slash-separated paths, with the rules of Unix paths: repeated slashes and
//! `.` components in the middle or at the end do not count.

use vstd::prelude::*;
use vstd::string::*;

use crate::text::{chars_of, string_of};

verus! {

/// `p` without trailing slashes and trailing `.` components. The root keeps
/// its slash, and a lone `.` stays.
pub open spec fn trim_tail(p: Seq<char>) -> Seq<char>
    decreases p.len(),
{
    if p.len() > 1 && p.last() == '/' {
        trim_tail(p.drop_last())
    } else if p.len() > 1 && p.last() == '.' && p[p.len() - 2] == '/' {
        trim_tail(p.drop_last())
    } else {
        p
    }
}

/// The position behind the last slash, 0 when there is none.
pub open spec fn name_start(p: Seq<char>) -> int
    decreases p.len(),
{
    if p.len() == 0 || p.last() == '/' {
        p.len() as int
    } else {
        name_start(p.drop_last())
    }
}

/// The position of the last dot, -1 when there is none.
pub open spec fn last_dot(p: Seq<char>) -> int
    decreases p.len(),
{
    if p.len() == 0 {
        -1
    } else if p.last() == '.' {
        p.len() - 1
    } else {
        last_dot(p.drop_last())
    }
}

/// The last component of `p`.
pub open spec fn last_component(p: Seq<char>) -> Seq<char> {
    trim_tail(p).skip(name_start(trim_tail(p)))
}

/// The directory that `p` lies in: everything before its last component.
/// The root and the empty path lie nowhere.
pub open spec fn parent_of(p: Seq<char>) -> Option<Seq<char>> {
    if last_component(p).len() == 0 {
        None
    } else {
        Some(trim_tail(trim_tail(p).take(name_start(trim_tail(p)))))
    }
}

/// The file name of `p` up to its last dot; a leading dot does not count.
/// `.` and `..` are no file names.
pub open spec fn stem_of(p: Seq<char>) -> Option<Seq<char>> {
    let name = last_component(p);
    if name.len() == 0 || name == seq!['.'] || name == seq!['.', '.'] {
        None
    } else if last_dot(name) <= 0 {
        Some(name)
    } else {
        Some(name.take(last_dot(name)))
    }
}

/// `rel` inside of `base`; an absolute `rel` stands for itself.
pub open spec fn joined_path(base: Seq<char>, rel: Seq<char>) -> Seq<char> {
    if rel.len() > 0 && rel[0] == '/' {
        rel
    } else if base.len() == 0 || base.last() == '/' {
        base + rel
    } else {
        base + seq!['/'] + rel
    }
}

/// The length of `chars[..n]` without its trailing slashes and dots.
fn trimmed_len(chars: &Vec<char>, n: usize) -> (r: usize)
    requires
        n <= chars@.len(),
    ensures
        r <= n,
        chars@.take(r as int) == trim_tail(chars@.take(n as int)),
{
    let mut r: usize = n;
    while r > 1 && (chars[r - 1] == '/' || (chars[r - 1] == '.' && chars[r - 2] == '/'))
        invariant
            r <= n <= chars@.len(),
            trim_tail(chars@.take(n as int)) == trim_tail(chars@.take(r as int)),
        decreases r,
    {
        assert(chars@.take(r as int).drop_last() =~= chars@.take(r - 1));
        r = r - 1;
    }
    r
}

/// The position behind the last slash of `chars[..n]`.
fn name_start_of(chars: &Vec<char>, n: usize) -> (r: usize)
    requires
        n <= chars@.len(),
    ensures
        r == name_start(chars@.take(n as int)),
        r <= n,
{
    let mut r: usize = n;
    while r > 0 && chars[r - 1] != '/'
        invariant
            r <= n <= chars@.len(),
            name_start(chars@.take(n as int)) == name_start(chars@.take(r as int)),
        decreases r,
    {
        assert(chars@.take(r as int).drop_last() =~= chars@.take(r - 1));
        r = r - 1;
    }
    r
}

/// The directory that a path lies in.
pub fn parent(path: &str) -> (r: Option<String>)
    ensures
        match r {
            Some(d) => parent_of(path@) == Some(d@),
            None => parent_of(path@) is None,
        },
{
    let chars = chars_of(path);
    assert(chars@.take(chars@.len() as int) =~= chars@);
    let n: usize = trimmed_len(&chars, chars.len());
    let start: usize = name_start_of(&chars, n);
    let ghost t = trim_tail(path@);
    proof {
        assert(t == chars@.take(n as int));
        assert(last_component(path@) == t.skip(start as int));
    }
    if start == n {
        return None;
    }
    let end: usize = trimmed_len(&chars, start);
    proof {
        assert(chars@.take(start as int) =~= t.take(start as int));
        assert(chars@.subrange(0, end as int) =~= chars@.take(end as int));
    }
    Some(string_of(&chars, 0, end))
}

/// Where the stem of a path's file name starts and ends.
fn stem_bounds(chars: &Vec<char>) -> (r: Option<(usize, usize)>)
    ensures
        match r {
            Some((start, end)) => {
                &&& start <= end <= chars@.len()
                &&& start == name_start(trim_tail(chars@))
                &&& end <= trim_tail(chars@).len() <= chars@.len()
                &&& trim_tail(chars@) == chars@.take(trim_tail(chars@).len() as int)
                &&& stem_of(chars@) == Some(chars@.subrange(start as int, end as int))
            },
            None => stem_of(chars@) is None,
        },
{
    assert(chars@.take(chars@.len() as int) =~= chars@);
    let n: usize = trimmed_len(chars, chars.len());
    let start: usize = name_start_of(chars, n);
    let ghost name = last_component(chars@);
    assert(name =~= chars@.subrange(start as int, n as int));
    if start == n {
        return None;
    }
    if n - start == 1 && chars[start] == '.' {
        assert(name =~= seq!['.']);
        return None;
    }
    if n - start == 2 && chars[start] == '.' && chars[start + 1] == '.' {
        assert(name =~= seq!['.', '.']);
        return None;
    }
    proof {
        if name == seq!['.'] {
            assert(name[0] == '.');
        }
        if name == seq!['.', '.'] {
            assert(name[0] == '.' && name[1] == '.');
        }
    }
    let mut dot: usize = n;
    assert(name.take((n - start) as int) =~= name);
    while dot > start && chars[dot - 1] != '.'
        invariant
            start <= dot <= n <= chars@.len(),
            name == chars@.subrange(start as int, n as int),
            last_dot(name) == last_dot(name.take(dot - start)),
        decreases dot,
    {
        assert(name.take(dot - start).last() == chars@[dot - 1]);
        assert(name.take(dot - start).drop_last() =~= name.take(dot - 1 - start));
        dot = dot - 1;
    }
    proof {
        if dot > start {
            assert(name.take(dot - start).last() == chars@[dot - 1]);
        }
    }
    if dot <= start + 1 {
        Some((start, n))
    } else {
        assert(name.take(dot - 1 - start) =~= chars@.subrange(start as int, dot - 1));
        Some((start, dot - 1))
    }
}

/// The file name of a path without its extension.
pub fn file_stem(path: &str) -> (r: Option<String>)
    ensures
        match r {
            Some(s) => stem_of(path@) == Some(s@),
            None => stem_of(path@) is None,
        },
{
    let chars = chars_of(path);
    match stem_bounds(&chars) {
        Some((start, end)) => Some(string_of(&chars, start, end)),
        None => None,
    }
}

/// `p` with the extension of its file name replaced, or added where it has
/// none. A path without a file name stays as it is.
pub open spec fn with_extension_of(p: Seq<char>, extension: Seq<char>) -> Seq<char> {
    match stem_of(p) {
        Some(stem) => trim_tail(p).take(name_start(trim_tail(p))) + stem + seq!['.'] + extension,
        None => p,
    }
}

/// A path with the extension of its file name replaced. The extension is not
/// empty.
pub fn with_extension(path: &str, extension: &str) -> (r: String)
    requires
        extension@.len() > 0,
    ensures
        r@ == with_extension_of(path@, extension@),
{
    let chars = chars_of(path);
    match stem_bounds(&chars) {
        Some((start, end)) => {
            let mut r = string_of(&chars, 0, end);
            proof {
                reveal_strlit(".");
                assert("."@ =~= seq!['.']);
                let t = trim_tail(path@);
                assert(t.take(start as int) =~= chars@.take(start as int));
                assert(chars@.subrange(0, end as int) =~= t.take(start as int) + chars@.subrange(
                    start as int,
                    end as int,
                ));
            }
            r.append(".");
            r.append(extension);
            r
        },
        None => path.to_owned(),
    }
}

/// `rel` inside of `base`; an absolute `rel` stands for itself.
pub fn join(base: &str, rel: &str) -> (r: String)
    ensures
        r@ == joined_path(base@, rel@),
{
    let rel_len: usize = rel.unicode_len();
    if rel_len > 0 && rel.get_char(0) == '/' {
        return rel.to_owned();
    }
    let base_len: usize = base.unicode_len();
    let mut r = base.to_owned();
    if base_len > 0 && base.get_char(base_len - 1) != '/' {
        proof {
            reveal_strlit("/");
            assert("/"@ =~= seq!['/']);
        }
        r.append("/");
    }
    r.append(rel);
    r
}

/// A file name without a slash ends where it begins.
proof fn lemma_name_start(head: Seq<char>, name: Seq<char>)
    requires
        head.len() == 0 || head.last() == '/',
        forall|i: int| 0 <= i < name.len() ==> #[trigger] name[i] != '/',
    ensures
        name_start(head + name) == head.len(),
    decreases name.len(),
{
    let p = head + name;
    if name.len() == 0 {
        assert(p =~= head);
    } else {
        assert(p.last() == name[name.len() - 1]);
        assert(p.drop_last() =~= head + name.drop_last());
        lemma_name_start(head, name.drop_last());
    }
}

/// The last dot is the one in front of an extension without dots.
proof fn lemma_last_dot(stem: Seq<char>, extension: Seq<char>)
    requires
        forall|i: int| 0 <= i < extension.len() ==> #[trigger] extension[i] != '.',
    ensures
        last_dot(stem + seq!['.'] + extension) == stem.len(),
    decreases extension.len(),
{
    let p = stem + seq!['.'] + extension;
    if extension.len() == 0 {
        assert(p.last() == '.');
    } else {
        assert(p.last() == extension[extension.len() - 1]);
        assert(p.drop_last() =~= stem + seq!['.'] + extension.drop_last());
        lemma_last_dot(stem, extension.drop_last());
    }
}

/// What a path with a proper file name ends with.
proof fn lemma_named(head: Seq<char>, name: Seq<char>)
    requires
        head.len() == 0 || head.last() == '/',
        name.len() > 0,
        name != seq!['.'],
        forall|i: int| 0 <= i < name.len() ==> #[trigger] name[i] != '/',
    ensures
        trim_tail(head + name) == head + name,
        name_start(head + name) == head.len(),
        last_component(head + name) == name,
{
    let p = head + name;
    let n = name.len() as int;
    assert(p.last() == name[n - 1]);
    if n > 1 {
        assert(p[p.len() - 2] == name[n - 2]);
    } else if name[0] == '.' {
        assert(name =~= seq!['.']);
    }
    lemma_name_start(head, name);
    assert(p.skip(head.len() as int) =~= name);
}

/// A file in a directory has that directory as its parent and its name as its
/// last component; a bare file name lies in the empty path.
pub proof fn law_parent_and_name_of_a_file(dir: Seq<char>, name: Seq<char>)
    requires
        name.len() > 0,
        name != seq!['.'],
        forall|i: int| 0 <= i < name.len() ==> #[trigger] name[i] != '/',
        dir.len() > 0,
        dir.last() != '/',
        dir.len() > 1 && dir.last() == '.' ==> dir[dir.len() - 2] != '/',
    ensures
        parent_of(dir + seq!['/'] + name) == Some(dir),
        last_component(dir + seq!['/'] + name) == name,
        parent_of(name) == Some(Seq::<char>::empty()),
        last_component(name) == name,
{
    let head = dir + seq!['/'];
    lemma_named(head, name);
    assert((head + name).take(head.len() as int) =~= head);
    assert(head.drop_last() =~= dir);
    assert(trim_tail(dir) == dir);
    assert(trim_tail(head) == dir);
    let none = Seq::<char>::empty();
    lemma_named(none, name);
    assert(none + name =~= name);
    assert(name.take(0) =~= none);
}

/// The stem of a file name, and the name with another extension.
proof fn lemma_stem(head: Seq<char>, stem: Seq<char>, extension: Seq<char>, other: Seq<char>)
    requires
        head.len() == 0 || head.last() == '/',
        stem.len() > 0,
        extension.len() > 0,
        forall|i: int| 0 <= i < stem.len() ==> #[trigger] stem[i] != '/',
        forall|i: int|
            0 <= i < extension.len() ==> #[trigger] extension[i] != '/' && extension[i] != '.',
    ensures
        stem_of(head + (stem + seq!['.'] + extension)) == Some(stem),
        with_extension_of(head + (stem + seq!['.'] + extension), other) == head + (stem + seq!['.']
            + other),
{
    let name = stem + seq!['.'] + extension;
    assert forall|i: int| 0 <= i < name.len() implies #[trigger] name[i] != '/' by {
        if i < stem.len() {
            assert(name[i] == stem[i]);
        } else if i > stem.len() {
            assert(name[i] == extension[i - stem.len() - 1]);
        }
    }
    let last = name.len() - 1;
    assert(name[last] == extension[extension.len() - 1]);
    assert(name.len() > 1);
    assert(seq!['.', '.'][1] == '.');
    lemma_last_dot(stem, extension);
    assert(name.take(stem.len() as int) =~= stem);
    lemma_named(head, name);
    assert((head + name).take(head.len() as int) =~= head);
    assert(head + stem + seq!['.'] + other =~= head + (stem + seq!['.'] + other));
}

/// A file name of a stem, a dot and an extension without dots has that stem,
/// wherever the file lies, and replacing its extension keeps the directory and
/// the stem.
pub proof fn law_stem_and_extension(
    dir: Seq<char>,
    stem: Seq<char>,
    extension: Seq<char>,
    other: Seq<char>,
)
    requires
        stem.len() > 0,
        extension.len() > 0,
        forall|i: int| 0 <= i < stem.len() ==> #[trigger] stem[i] != '/',
        forall|i: int|
            0 <= i < extension.len() ==> #[trigger] extension[i] != '/' && extension[i] != '.',
    ensures
        stem_of(stem + seq!['.'] + extension) == Some(stem),
        stem_of(dir + seq!['/'] + stem + seq!['.'] + extension) == Some(stem),
        with_extension_of(stem + seq!['.'] + extension, other) == stem + seq!['.'] + other,
        with_extension_of(dir + seq!['/'] + stem + seq!['.'] + extension, other) == dir + seq!['/']
            + stem + seq!['.'] + other,
{
    let head = dir + seq!['/'];
    let none = Seq::<char>::empty();
    lemma_stem(none, stem, extension, other);
    lemma_stem(head, stem, extension, other);
    assert(none + (stem + seq!['.'] + extension) =~= stem + seq!['.'] + extension);
    assert(none + (stem + seq!['.'] + other) =~= stem + seq!['.'] + other);
    assert(head + (stem + seq!['.'] + extension) =~= dir + seq!['/'] + stem + seq!['.']
        + extension);
    assert(head + (stem + seq!['.'] + other) =~= dir + seq!['/'] + stem + seq!['.'] + other);
}

/// A relative path inside of a directory begins with the directory and ends
/// with the relative path, with a slash and nothing else between them; inside
/// of the empty path, and for an absolute path, it is the path itself.
pub proof fn law_joined_path_keeps_both_parts(base: Seq<char>, rel: Seq<char>)
    ensures
        rel.len() > 0 && rel[0] == '/' ==> joined_path(base, rel) == rel,
        joined_path(Seq::empty(), rel) == rel,
        base.len() > 0 && base.last() != '/' && !(rel.len() > 0 && rel[0] == '/') ==> {
            let p = joined_path(base, rel);
            &&& p.len() == base.len() + 1 + rel.len()
            &&& p.take(base.len() as int) == base
            &&& p[base.len() as int] == '/'
            &&& p.skip(base.len() as int + 1) == rel
        },
        base.len() > 0 && base.last() == '/' && !(rel.len() > 0 && rel[0] == '/') ==> {
            let p = joined_path(base, rel);
            &&& p.len() == base.len() + rel.len()
            &&& p.take(base.len() as int) == base
            &&& p.skip(base.len() as int) == rel
        },
{
    let none = Seq::<char>::empty();
    assert(none + rel =~= rel);
    let p = joined_path(base, rel);
    if !(rel.len() > 0 && rel[0] == '/') && base.len() > 0 {
        assert(p.take(base.len() as int) =~= base);
        if base.last() == '/' {
            assert(p.skip(base.len() as int) =~= rel);
        } else {
            assert(p.skip(base.len() as int + 1) =~= rel);
        }
    }
}

/// Different relative paths inside of one directory are different.
pub proof fn law_joined_paths_differ(base: Seq<char>, a: Seq<char>, b: Seq<char>)
    requires
        a.len() > 0 ==> a[0] != '/',
        b.len() > 0 ==> b[0] != '/',
        joined_path(base, a) == joined_path(base, b),
    ensures
        a == b,
{
    law_joined_path_keeps_both_parts(base, a);
    law_joined_path_keeps_both_parts(base, b);
}

/// Slashes and lone dots at the end of a path do not count, and the root and
/// the empty path lie nowhere.
pub proof fn law_ends_of_paths(p: Seq<char>)
    requires
        p.len() > 0,
    ensures
        trim_tail(p.push('/')) == trim_tail(p),
        trim_tail(p + seq!['/', '.']) == trim_tail(p),
        parent_of(p.push('/')) == parent_of(p),
        last_component(p.push('/')) == last_component(p),
        stem_of(p.push('/')) == stem_of(p),
        trim_tail(p).len() <= 1 || trim_tail(p).last() != '/',
        trim_tail(p).is_prefix_of(p),
        parent_of(Seq::empty()) is None,
        parent_of(seq!['/']) is None,
        stem_of(Seq::empty()) is None,
        stem_of(seq!['/']) is None,
{
    assert(p.push('/').drop_last() =~= p);
    let q = p + seq!['/', '.'];
    assert(q.drop_last() =~= p.push('/'));
    assert(q.last() == '.' && q[q.len() - 2] == '/');
    lemma_trimmed(p);
    let root = seq!['/'];
    assert(trim_tail(root) == root);
    assert(name_start(root) == 1);
    let none = Seq::<char>::empty();
    assert(trim_tail(none) == none);
    assert(name_start(none) == 0);
}

/// What trimming leaves of a path.
proof fn lemma_trimmed(p: Seq<char>)
    requires
        p.len() > 0,
    ensures
        trim_tail(p).len() <= 1 || trim_tail(p).last() != '/',
        trim_tail(p).is_prefix_of(p),
    decreases p.len(),
{
    if p.len() > 1 && (p.last() == '/' || (p.last() == '.' && p[p.len() - 2] == '/')) {
        lemma_trimmed(p.drop_last());
    }
}

/// A file directly below the root lies in the root.
pub proof fn law_files_of_the_root(name: Seq<char>)
    requires
        name.len() > 0,
        name != seq!['.'],
        forall|i: int| 0 <= i < name.len() ==> #[trigger] name[i] != '/',
    ensures
        parent_of(seq!['/'] + name) == Some(seq!['/']),
        last_component(seq!['/'] + name) == name,
{
    let root = seq!['/'];
    lemma_named(root, name);
    assert((root + name).take(1) =~= root);
}

/// The position behind the last dot of a name that has none but a leading one.
proof fn lemma_no_dot(name: Seq<char>)
    requires
        forall|i: int| 1 <= i < name.len() ==> #[trigger] name[i] != '.',
    ensures
        last_dot(name) <= 0,
    decreases name.len(),
{
    if name.len() > 0 && !(name.last() == '.') {
        let rest = name.drop_last();
        assert forall|i: int| 1 <= i < rest.len() implies #[trigger] rest[i] != '.' by {
            assert(rest[i] == name[i]);
        }
        lemma_no_dot(rest);
    } else if name.len() > 1 {
        assert(name[name.len() - 1] != '.');
    }
}

/// A name without a dot is its own stem, and so is one whose only dot is its
/// first character; an extension is then added. `.` and `..` have no stem and
/// keep their place.
pub proof fn law_names_without_an_extension(
    dir: Seq<char>,
    name: Seq<char>,
    extension: Seq<char>,
)
    requires
        name.len() > 0,
        name != seq!['.'],
        forall|i: int| 0 <= i < name.len() ==> #[trigger] name[i] != '/',
        forall|i: int| 1 <= i < name.len() ==> #[trigger] name[i] != '.',
    ensures
        stem_of(dir + seq!['/'] + name) == Some(name),
        with_extension_of(dir + seq!['/'] + name, extension) == dir + seq!['/'] + name + seq!['.']
            + extension,
        stem_of(dir + seq!['/', '.', '.']) is None,
        with_extension_of(dir + seq!['/', '.', '.'], extension) == dir + seq!['/', '.', '.'],
{
    let head = dir + seq!['/'];
    lemma_named(head, name);
    lemma_no_dot(name);
    if name == seq!['.', '.'] {
        assert(name[1] == '.');
    }
    assert((head + name).take(head.len() as int) =~= head);
    let up = seq!['.', '.'];
    assert(up.len() == 2 && seq!['.'].len() == 1);
    lemma_named(head, up);
    assert(head + up =~= dir + seq!['/', '.', '.']);
}

} // verus!
