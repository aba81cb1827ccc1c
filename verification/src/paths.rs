//! File paths as sequences of parts that `/` separates.
//!
//! A path is read as `std::path::Path` reads it on Unix: empty parts and parts that
//! are a lone `.` do not count.
use vstd::prelude::*;

use crate::text::{chars_of, text_of};

verus! {

/// `p` without trailing separators and without trailing parts that are a lone dot.
pub open spec fn path_body<T>(p: Seq<T>, sep: T, dot: T) -> Seq<T>
    decreases p.len(),
{
    if p.len() > 0 && p.last() == sep {
        path_body(p.drop_last(), sep, dot)
    } else if p.len() > 0 && p.last() == dot && (p.len() == 1 || p[p.len() - 2] == sep) {
        path_body(p.drop_last(), sep, dot)
    } else {
        p
    }
}

/// How many elements stand after the last `sep` in `p`.
pub open spec fn tail_len<T>(p: Seq<T>, sep: T) -> nat
    decreases p.len(),
{
    if p.len() == 0 || p.last() == sep {
        0
    } else {
        tail_len(p.drop_last(), sep) + 1
    }
}

/// What stands after the last `sep` in `p`.
pub open spec fn last_part<T>(p: Seq<T>, sep: T) -> Seq<T> {
    p.skip(p.len() - tail_len(p, sep))
}

/// The name of the file that `p` leads to: its last part, unless that is `..`.
pub open spec fn file_name_of<T>(p: Seq<T>, sep: T, dot: T) -> Option<Seq<T>> {
    let name = last_part(path_body(p, sep, dot), sep);
    if name.len() == 0 || name == seq![dot, dot] {
        None
    } else {
        Some(name)
    }
}

/// The extension of a file name: what follows its last dot, when something stands
/// before that dot.
pub open spec fn extension_of_name<T>(name: Seq<T>, dot: T) -> Option<Seq<T>> {
    let n = tail_len(name, dot);
    if n + 1 < name.len() {
        Some(name.skip(name.len() - n))
    } else {
        None
    }
}

/// The file name without its extension and the dot before it.
pub open spec fn stem_of_name<T>(name: Seq<T>, dot: T) -> Seq<T> {
    let n = tail_len(name, dot);
    if n + 1 < name.len() {
        name.take(name.len() - n - 1)
    } else {
        name
    }
}

/// The extension of the file that `p` leads to.
pub open spec fn extension_of<T>(p: Seq<T>, sep: T, dot: T) -> Option<Seq<T>> {
    match file_name_of(p, sep, dot) {
        Some(name) => extension_of_name(name, dot),
        None => None,
    }
}

/// The path without its last part: `None` for the root and for the empty path.
pub open spec fn parent_of(p: Seq<char>) -> Option<Seq<char>> {
    let body = path_body(p, '/', '.');
    if body.len() == 0 {
        if p.len() > 0 && p[0] == '.' {
            Some(Seq::empty())
        } else {
            None
        }
    } else {
        let dir = body.take(body.len() - tail_len(body, '/'));
        let up = path_body(dir, '/', '.');
        if up.len() == 0 && dir.len() > 0 {
            Some(seq![dir[0]])
        } else {
            Some(up)
        }
    }
}

/// `base` with the path `rest` after it; an absolute `rest` replaces `base`.
pub open spec fn joined(base: Seq<char>, rest: Seq<char>) -> Seq<char> {
    if rest.len() > 0 && rest[0] == '/' {
        rest
    } else if base.len() == 0 || base.last() == '/' {
        base + rest
    } else {
        base.push('/') + rest
    }
}

/// The length of the body of `v[..end]`.
fn body_end(v: &Vec<char>, end: usize) -> (r: usize)
    requires
        end <= v@.len(),
    ensures
        r <= end,
        path_body(v@.take(end as int), '/', '.') == v@.take(r as int),
{
    let mut i: usize = end;
    while i > 0 && (v[i - 1] == '/' || (v[i - 1] == '.' && (i == 1 || v[i - 2] == '/')))
        invariant
            i <= end <= v@.len(),
            path_body(v@.take(end as int), '/', '.') == path_body(v@.take(i as int), '/', '.'),
        decreases i,
    {
        assert(v@.take(i as int).drop_last() =~= v@.take(i - 1));
        i = i - 1;
    }
    i
}

/// The length of the part of `v[..end]` after its last `sep`.
fn tail(v: &Vec<char>, end: usize, sep: char) -> (r: usize)
    requires
        end <= v@.len(),
    ensures
        r <= end,
        r == tail_len(v@.take(end as int), sep),
{
    let mut i: usize = end;
    while i > 0 && v[i - 1] != sep
        invariant
            i <= end <= v@.len(),
            tail_len(v@.take(end as int), sep) == tail_len(v@.take(i as int), sep) + (end - i),
        decreases i,
    {
        assert(v@.take(i as int).drop_last() =~= v@.take(i - 1));
        i = i - 1;
    }
    end - i
}

/// The name of the file that the path leads to.
pub fn file_name(path: &str) -> (r: Option<String>)
    ensures
        r is Some == file_name_of(path@, '/', '.') is Some,
        r is Some ==> r->0@ == file_name_of(path@, '/', '.')->0,
{
    let v = chars_of(path);
    assert(v@.take(v@.len() as int) =~= v@);
    let end = body_end(&v, v.len());
    let n = tail(&v, end, '/');
    let ghost name = last_part(v@.take(end as int), '/');
    assert(v@.subrange(end - n, end as int) =~= name);
    if n == 0 {
        return None;
    }
    if n == 2 && v[end - 2] == '.' && v[end - 1] == '.' {
        assert(name =~= seq!['.', '.']);
        return None;
    }
    assert(name == seq!['.', '.'] ==> name[0] == '.' && name[1] == '.' && name.len() == 2);
    Some(text_of(&v, end - n, end))
}

/// The file name without its extension.
pub fn file_stem(path: &str) -> (r: Option<String>)
    ensures
        r is Some == file_name_of(path@, '/', '.') is Some,
        r is Some ==> r->0@ == stem_of_name(file_name_of(path@, '/', '.')->0, '.'),
{
    match file_name(path) {
        None => None,
        Some(name) => {
            let v = chars_of(name.as_str());
            assert(v@.take(v@.len() as int) =~= v@);
            let n = tail(&v, v.len(), '.');
            if n < v.len() && n + 1 < v.len() {
                assert(v@.subrange(0, v@.len() - n - 1) =~= v@.take(v@.len() - n - 1));
                Some(text_of(&v, 0, v.len() - n - 1))
            } else {
                Some(name)
            }
        },
    }
}

/// The path without its last part.
pub fn parent(path: &str) -> (r: Option<String>)
    ensures
        r is Some == parent_of(path@) is Some,
        r is Some ==> r->0@ == parent_of(path@)->0,
{
    let v = chars_of(path);
    assert(v@.take(v@.len() as int) =~= v@);
    let end = body_end(&v, v.len());
    if end == 0 {
        if v.len() > 0 && v[0] == '.' {
            return Some(String::new());
        }
        return None;
    }
    let n = tail(&v, end, '/');
    let dir: usize = end - n;
    assert(v@.take(end as int).take(dir as int) =~= v@.take(dir as int));
    let up = body_end(&v, dir);
    if up == 0 && dir > 0 {
        assert(v@.subrange(0, 1) =~= seq![v@[0]]);
        Some(text_of(&v, 0, 1))
    } else {
        assert(v@.subrange(0, up as int) =~= v@.take(up as int));
        Some(text_of(&v, 0, up))
    }
}

/// `base` with the path `rest` after it.
pub fn join(base: &str, rest: &str) -> (r: String)
    ensures
        r@ == joined(base@, rest@),
{
    let a = chars_of(base);
    let b = chars_of(rest);
    if b.len() > 0 && b[0] == '/' {
        return rest.to_owned();
    }
    let mut r = base.to_owned();
    if a.len() > 0 && a[a.len() - 1] != '/' {
        r.push('/');
    }
    r.append(rest);
    r
}

/// The length of the body of a path of raw bytes.
fn byte_body_end(path: &Vec<u8>) -> (r: usize)
    ensures
        r <= path@.len(),
        path_body(path@, 47u8, 46u8) == path@.take(r as int),
{
    let mut end: usize = path.len();
    assert(path@.take(end as int) =~= path@);
    while end > 0 && (path[end - 1] == 47 || (path[end - 1] == 46 && (end == 1 || path[end - 2]
        == 47)))
        invariant
            end <= path@.len(),
            path_body(path@, 47u8, 46u8) == path_body(path@.take(end as int), 47u8, 46u8),
        decreases end,
    {
        assert(path@.take(end as int).drop_last() =~= path@.take(end - 1));
        end = end - 1;
    }
    end
}

/// The length of the part of `path[start..end]` after its last `sep`.
fn byte_tail(path: &Vec<u8>, start: usize, end: usize, sep: u8) -> (r: usize)
    requires
        start <= end <= path@.len(),
    ensures
        r <= end - start,
        r == tail_len(path@.subrange(start as int, end as int), sep),
{
    let mut i: usize = end;
    while i > start && path[i - 1] != sep
        invariant
            start <= i <= end <= path@.len(),
            tail_len(path@.subrange(start as int, end as int), sep) == tail_len(
                path@.subrange(start as int, i as int),
                sep,
            ) + (end - i),
        decreases i,
    {
        assert(path@.subrange(start as int, i as int).drop_last() =~= path@.subrange(
            start as int,
            i - 1,
        ));
        i = i - 1;
    }
    end - i
}

/// A copy of `path[start..end]`.
fn byte_slice(path: &Vec<u8>, start: usize, end: usize) -> (r: Vec<u8>)
    requires
        start <= end <= path@.len(),
    ensures
        r@ == path@.subrange(start as int, end as int),
{
    let mut r: Vec<u8> = Vec::new();
    let mut i: usize = start;
    while i < end
        invariant
            start <= i <= end <= path@.len(),
            r@ == path@.subrange(start as int, i as int),
        decreases end - i,
    {
        r.push(path[i]);
        i = i + 1;
        assert(path@.subrange(start as int, i as int) =~= path@.subrange(start as int, i - 1).push(
            path@[i - 1],
        ));
    }
    r
}

/// The extension of the file that a path of raw bytes leads to.
pub fn extension(path: &Vec<u8>) -> (r: Option<Vec<u8>>)
    ensures
        r is Some == extension_of(path@, 47u8, 46u8) is Some,
        r is Some ==> r->0@ == extension_of(path@, 47u8, 46u8)->0,
{
    let end = byte_body_end(path);
    let ghost body = path@.take(end as int);
    assert(path@.subrange(0, end as int) =~= body);
    let n = byte_tail(path, 0, end, 47);
    let start: usize = end - n;
    let ghost name = last_part(body, 47u8);
    assert(name =~= path@.subrange(start as int, end as int));
    if n == 0 {
        return None;
    }
    if n == 2 && path[start] == 46 && path[start + 1] == 46 {
        assert(name =~= seq![46u8, 46u8]);
        return None;
    }
    assert(name == seq![46u8, 46u8] ==> name[0] == 46 && name[1] == 46 && name.len() == 2);
    let m = byte_tail(path, start, end, 46);
    if m == n || m + 1 == n {
        return None;
    }
    assert(path@.subrange(end - m, end as int) =~= name.skip(name.len() - m));
    Some(byte_slice(path, end - m, end))
}

/// The part behind the last separator is found where it is put.
proof fn tail_len_facts<T>(a: Seq<T>, sep: T, b: Seq<T>)
    requires
        !b.contains(sep),
    ensures
        tail_len(b, sep) == b.len(),
        tail_len(a.push(sep) + b, sep) == b.len(),
    decreases b.len(),
{
    if b.len() > 0 {
        let front = b.drop_last();
        assert(b.contains(b.last()));
        assert(!front.contains(sep)) by {
            if front.contains(sep) {
                let i = choose|i: int| 0 <= i < front.len() && front[i] == sep;
                assert(b[i] == sep);
            }
        }
        tail_len_facts(a, sep, front);
        assert((a.push(sep) + b).drop_last() =~= a.push(sep) + front);
    } else {
        assert(a.push(sep) + b =~= a.push(sep));
    }
}

/// A name that can stand as a part of a path and counts there: without a separator, and
/// neither empty nor a lone dot.
pub open spec fn is_part<T>(name: Seq<T>, sep: T, dot: T) -> bool {
    &&& name.len() > 0
    &&& !name.contains(sep)
    &&& name != seq![dot]
}

/// A path that ends in a part that counts is its own body.
proof fn body_facts<T>(dir: Seq<T>, name: Seq<T>, sep: T, dot: T)
    requires
        is_part(name, sep, dot),
        sep != dot,
    ensures
        path_body(name, sep, dot) == name,
        path_body(dir.push(sep) + name, sep, dot) == dir.push(sep) + name,
{
    let p = dir.push(sep) + name;
    let n = name.len() as int;
    assert(name.contains(name.last()));
    assert(p.last() == name.last());
    if name.last() == dot {
        if n == 1 {
            assert(name =~= seq![dot]);
        } else {
            assert(name.contains(name[n - 2]));
            assert(p[p.len() - 2] == name[n - 2]);
        }
    }
}

/// The name of a file is the last part of its path, whatever stands before it. A separator at
/// the end, or a lone dot behind one, changes nothing; two dots are no name.
pub proof fn file_name_law<T>(dir: Seq<T>, name: Seq<T>, sep: T, dot: T)
    requires
        is_part(name, sep, dot),
        sep != dot,
    ensures
        name != seq![dot, dot] ==> {
            &&& file_name_of(name, sep, dot) == Some(name)
            &&& file_name_of(dir.push(sep) + name, sep, dot) == Some(name)
        },
        name == seq![dot, dot] ==> {
            &&& file_name_of(name, sep, dot) is None
            &&& file_name_of(dir.push(sep) + name, sep, dot) is None
        },
        file_name_of(dir.push(sep), sep, dot) == file_name_of(dir, sep, dot),
        file_name_of(dir.push(sep).push(dot), sep, dot) == file_name_of(dir, sep, dot),
        file_name_of(Seq::empty(), sep, dot) is None,
{
    let p = dir.push(sep) + name;
    body_facts(dir, name, sep, dot);
    tail_len_facts(dir, sep, name);
    assert(last_part(name, sep) =~= name);
    assert(last_part(p, sep) =~= name);
    assert(dir.push(sep).drop_last() =~= dir);
    let dotted = dir.push(sep).push(dot);
    assert(dotted.drop_last() =~= dir.push(sep));
    assert(dotted[dotted.len() - 2] == sep);
    assert(path_body(dir.push(sep), sep, dot) == path_body(dir, sep, dot));
    assert(path_body(dotted, sep, dot) == path_body(dir.push(sep), sep, dot));
}

/// The extension of a file is what follows the last dot of its name, and the stem what comes
/// before. A name without a dot, or with none but at its beginning, has no extension and is
/// its own stem.
pub proof fn extension_law<T>(stem: Seq<T>, extension: Seq<T>, dot: T)
    requires
        !extension.contains(dot),
    ensures
        stem.len() > 0 ==> {
            &&& extension_of_name(stem.push(dot) + extension, dot) == Some(extension)
            &&& stem_of_name(stem.push(dot) + extension, dot) == stem
        },
        extension_of_name(seq![dot] + extension, dot) is None,
        stem_of_name(seq![dot] + extension, dot) == seq![dot] + extension,
        extension_of_name(extension, dot) is None,
        stem_of_name(extension, dot) == extension,
{
    let name = stem.push(dot) + extension;
    tail_len_facts(stem, dot, extension);
    assert(name.skip(name.len() - extension.len()) =~= extension);
    assert(name.take(name.len() - extension.len() - 1) =~= stem);
    tail_len_facts(Seq::empty(), dot, extension);
    assert(seq![dot] + extension =~= Seq::empty().push(dot) + extension);
}

/// The extension of a file, from its whole path: that of its name, whatever the directory.
pub proof fn path_extension_law<T>(
    dir: Seq<T>,
    stem: Seq<T>,
    extension: Seq<T>,
    sep: T,
    dot: T,
)
    requires
        sep != dot,
        stem.len() > 0,
        extension.len() > 0,
        !stem.contains(sep),
        !extension.contains(sep),
        !extension.contains(dot),
    ensures
        extension_of(dir.push(sep) + (stem.push(dot) + extension), sep, dot) == Some(extension),
        extension_of(stem.push(dot) + extension, sep, dot) == Some(extension),
{
    let name = stem.push(dot) + extension;
    assert(!name.contains(sep)) by {
        if name.contains(sep) {
            let i = choose|i: int| 0 <= i < name.len() && name[i] == sep;
            if i < stem.len() {
                assert(stem[i] == sep);
            } else if i > stem.len() {
                assert(extension[i - stem.len() - 1] == sep);
            }
        }
    }
    assert(name.last() == extension.last());
    assert(extension.contains(extension.last()));
    assert(name != seq![dot]);
    assert(name != seq![dot, dot]) by {
        if name == seq![dot, dot] {
            assert(name.last() == dot);
        }
    }
    file_name_law(dir, name, sep, dot);
    extension_law(stem, extension, dot);
}

/// The directory of a file: what stands before the last part of its path. A file in the root
/// is in the root, and a file that is named alone is in the empty path. The root itself and
/// the empty path have no directory. Separators that are doubled, or stand at the end, play no
/// part.
pub proof fn parent_law(dir: Seq<char>, name: Seq<char>)
    requires
        is_part(name, '/', '.'),
    ensures
        dir.len() > 0 && path_body(dir, '/', '.') == dir ==> parent_of(dir.push('/') + name)
            == Some(dir),
        parent_of(seq!['/'] + name) == Some(seq!['/']),
        parent_of(name) == Some(Seq::<char>::empty()),
        parent_of(seq!['/']) is None,
        parent_of(Seq::empty()) is None,
        parent_of(seq!['.']) == Some(Seq::<char>::empty()),
        parent_of((dir.push('/') + name).push('/')) == parent_of(dir.push('/') + name),
        dir.len() > 0 && path_body(dir, '/', '.') == dir ==> parent_of(
            dir.push('/').push('/') + name,
        ) == Some(dir),
{
    let lone = seq!['.'];
    assert(lone.drop_last() =~= Seq::<char>::empty());
    assert(path_body(lone, '/', '.') == path_body(lone.drop_last(), '/', '.'));
    let double = dir.push('/').push('/') + name;
    body_facts(dir.push('/'), name, '/', '.');
    tail_len_facts(dir.push('/'), '/', name);
    assert(double.take(double.len() - name.len()) =~= dir.push('/').push('/'));
    assert(dir.push('/').push('/').drop_last() =~= dir.push('/'));
    assert(path_body(dir.push('/').push('/'), '/', '.') == path_body(dir.push('/'), '/', '.'));
    assert((dir.push('/') + name).push('/').drop_last() =~= dir.push('/') + name);
    let p = dir.push('/') + name;
    body_facts(dir, name, '/', '.');
    tail_len_facts(dir, '/', name);
    assert(p.take(p.len() - name.len()) =~= dir.push('/'));
    assert(dir.push('/').drop_last() =~= dir);
    assert(path_body(dir.push('/'), '/', '.') == path_body(dir, '/', '.'));
    let none = Seq::<char>::empty();
    let q = seq!['/'] + name;
    assert(q =~= none.push('/') + name);
    body_facts(none, name, '/', '.');
    tail_len_facts(none, '/', name);
    assert(q.take(q.len() - name.len()) =~= seq!['/']);
    let root = seq!['/'];
    assert(root.drop_last() =~= none);
    assert(path_body(root, '/', '.') == path_body(none, '/', '.'));
    assert(parent_of(q)->0 =~= seq!['/']);
    assert(name.take(0) =~= none);
    assert(parent_of(name)->0 =~= none);
}

/// Two paths in a row: with one slash between them, or as they are where the first is empty
/// or has one already. An absolute path stands for itself.
pub proof fn join_law(base: Seq<char>, rest: Seq<char>)
    ensures
        joined(base, seq!['/'] + rest) == seq!['/'] + rest,
        rest.len() == 0 || rest[0] != '/' ==> {
            &&& joined(Seq::empty(), rest) == rest
            &&& joined(base.push('/'), rest) == base.push('/') + rest
            &&& base.len() > 0 && base.last() != '/' ==> joined(base, rest) == base + seq!['/']
                + rest
        },
{
    assert(Seq::<char>::empty() + rest =~= rest);
    assert(base.push('/') + rest =~= base + seq!['/'] + rest);
}

/// A file joined to a directory is found there: it has its name, and its directory is that
/// one.
pub proof fn join_parent_law(dir: Seq<char>, name: Seq<char>)
    requires
        is_part(name, '/', '.'),
        name != seq!['.', '.'],
        dir.len() > 0,
        path_body(dir, '/', '.') == dir,
    ensures
        file_name_of(joined(dir, name), '/', '.') == Some(name),
        parent_of(joined(dir, name)) == Some(dir),
{
    assert(name.contains(name[0]));
    assert(dir.last() != '/') by {
        if dir.last() == '/' {
            body_law(dir.drop_last(), name);
        }
    }
    file_name_law(dir, name, '/', '.');
    parent_law(dir, name);
}

/// A name that can stand as a part of a path counts as a whole.
pub proof fn name_body_law(name: Seq<char>)
    requires
        is_part(name, '/', '.'),
    ensures
        path_body(name, '/', '.') == name,
{
    body_facts(Seq::empty(), name, '/', '.');
}

/// What counts of a path is a beginning of it, and all of it where a part that counts stands
/// at its end.
pub proof fn body_law(p: Seq<char>, name: Seq<char>)
    requires
        is_part(name, '/', '.'),
    ensures
        path_body(p, '/', '.') == p.take(path_body(p, '/', '.').len() as int),
        path_body(p, '/', '.').len() <= p.len(),
        path_body(p.push('/'), '/', '.') == path_body(p, '/', '.'),
        path_body(p.push('/') + name, '/', '.') == p.push('/') + name,
    decreases p.len(),
{
    body_facts(p, name, '/', '.');
    assert(p.push('/').drop_last() =~= p);
    let body = path_body(p, '/', '.');
    if body != p {
        let front = p.drop_last();
        body_law(front, name);
        assert(body == path_body(front, '/', '.'));
        assert(body =~= p.take(body.len() as int));
    } else {
        assert(p.take(p.len() as int) =~= p);
    }
}

} // verus!
