//! The videos in the search paths. Paths are bytes, as the system has them.
use rand::seq::IndexedRandom;
use vstd::prelude::*;

use crate::config;
use crate::config::SearchPath;
use crate::paths;
use crate::seqs;
use crate::text;

verus! {

/// What stands at a path.
#[derive(Debug, Clone, Copy, PartialEq, Eq, Structural)]
pub enum Kind {
    Directory,
    File,
    Other,
}

/// One entry of a directory.
#[derive(Debug)]
pub struct Entry {
    pub path: Vec<u8>,
    pub kind: Kind,
}

/// An [`Entry`] as plain values.
pub struct EntryText {
    pub path: Seq<u8>,
    pub kind: Kind,
}

impl View for Entry {
    type V = EntryText;

    open spec fn view(&self) -> EntryText {
        EntryText { path: self.path@, kind: self.kind }
    }
}

/// The entries as plain values, in order.
pub open spec fn entry_texts(entries: Seq<Entry>) -> Seq<EntryText> {
    entries.map_values(|e: Entry| e@)
}

/// The paths as plain bytes, in order.
pub open spec fn path_bytes(paths: Seq<Vec<u8>>) -> Seq<Seq<u8>> {
    paths.map_values(|p: Vec<u8>| p@)
}

/// A file system: the entries of each directory that can be read.
pub type Tree = spec_fn(Seq<u8>) -> Option<Seq<EntryText>>;

/// What a listing holds.
pub open spec fn listing(entries: Option<Vec<Entry>>) -> Option<Seq<EntryText>> {
    match entries {
        Some(v) => Some(entry_texts(v@)),
        None => None,
    }
}

/// `list` reads directories as they stand in `tree`.
pub open spec fn reads<F: Fn(&Vec<u8>) -> Option<Vec<Entry>>>(list: F, tree: Tree) -> bool {
    forall|dir: &Vec<u8>, r: Option<Vec<Entry>>| #[trigger]
        call_ensures(list, (dir,), r) ==> listing(r) == tree(dir@)
}

/// The extensions of wallpapers, in lower case.
pub open spec fn is_extension(e: Seq<char>) -> bool {
    e == "mp4"@ || e == "mkv"@ || e == "webm"@ || e == "avi"@ || e == "mov"@ || e == "gif"@ || e
        == "ogv"@
}

/// The file at this path is a wallpaper, by its extension.
pub open spec fn names_wallpaper(path: Seq<u8>) -> bool {
    match paths::extension_of(path, 47u8, 46u8) {
        Some(e) => vstd::utf8::valid_utf8(e) && is_extension(
            text::lowercase_text(vstd::utf8::decode_utf8(e)),
        ),
        None => false,
    }
}

/// Whether a lower-case extension is one of a wallpaper.
pub fn wallpaper_extension(lowered: &str) -> (r: bool)
    ensures
        r == is_extension(lowered@),
{
    text::same_text(lowered, "mp4") || text::same_text(lowered, "mkv") || text::same_text(
        lowered,
        "webm",
    ) || text::same_text(lowered, "avi") || text::same_text(lowered, "mov") || text::same_text(
        lowered,
        "gif",
    ) || text::same_text(lowered, "ogv")
}

/// Whether the file at this path is a wallpaper, by its extension in any case.
pub fn is_wallpaper(path: &Vec<u8>) -> (r: bool)
    ensures
        r == names_wallpaper(path@),
        match paths::extension_of(path@, 47u8, 46u8) {
            Some(e) => {
                let chars = vstd::utf8::decode_utf8(e);
                vstd::utf8::valid_utf8(e) && vstd::utf8::is_ascii_chars(chars) ==> r
                    == is_extension(text::ascii_lowercase(chars))
            },
            None => !r,
        },
{
    match paths::extension(path) {
        Some(e) => match core::str::from_utf8(e.as_slice()) {
            Ok(e) => wallpaper_extension(e.to_lowercase().as_str()),
            Err(_) => false,
        },
        None => false,
    }
}

/// What the walk of a directory finds, that stands `depth` levels down.
pub open spec fn found(tree: Tree, dir: Seq<u8>, max_depth: nat, depth: nat) -> Seq<Seq<u8>>
    decreases (max_depth - depth), 1nat, 0nat,
    when depth <= max_depth
{
    match tree(dir) {
        Some(entries) => found_among(tree, entries, max_depth, depth),
        None => Seq::empty(),
    }
}

/// What the walk finds at the entries of a directory that stands `depth` levels down:
/// directories are followed as long as they are not too deep, files must be wallpapers.
pub open spec fn found_among(
    tree: Tree,
    entries: Seq<EntryText>,
    max_depth: nat,
    depth: nat,
) -> Seq<Seq<u8>>
    decreases (max_depth - depth), 0nat, entries.len(),
    when depth <= max_depth
{
    if entries.len() == 0 {
        Seq::empty()
    } else {
        found_among(tree, entries.drop_last(), max_depth, depth) + found_at(
            tree,
            entries.last(),
            max_depth,
            depth,
        )
    }
}

/// What the walk finds at one entry.
pub open spec fn found_at(tree: Tree, entry: EntryText, max_depth: nat, depth: nat) -> Seq<Seq<u8>>
    decreases (max_depth - depth), 0nat, 0nat,
    when depth <= max_depth
{
    if entry.kind == Kind::Directory && depth < max_depth {
        found(tree, entry.path, max_depth, depth + 1)
    } else if entry.kind == Kind::File && names_wallpaper(entry.path) {
        seq![entry.path]
    } else {
        Seq::empty()
    }
}

/// The files at these paths are all wallpapers.
pub open spec fn all_wallpapers(paths: Seq<Seq<u8>>) -> bool {
    forall|i: int| 0 <= i < paths.len() ==> names_wallpaper(#[trigger] paths[i])
}

/// Adds the wallpapers that the walk of a directory finds.
fn walk<F: Fn(&Vec<u8>) -> Option<Vec<Entry>>>(
    dir: &Vec<u8>,
    max_depth: u32,
    depth: u32,
    list: &F,
    out: &mut Vec<Vec<u8>>,
)
    requires
        depth <= max_depth,
        forall|d: &Vec<u8>| call_requires(*list, (d,)),
    ensures
        forall|tree: Tree| #[trigger]
            reads(*list, tree) ==> path_bytes(final(out)@) == path_bytes(old(out)@) + found(
                tree,
                dir@,
                max_depth as nat,
                depth as nat,
            ),
        all_wallpapers(path_bytes(old(out)@)) ==> all_wallpapers(path_bytes(final(out)@)),
    decreases max_depth - depth,
{
    let ghost before = path_bytes(out@);
    let entries = match list(dir) {
        Some(entries) => entries,
        None => {
            assert forall|tree: Tree| #[trigger] reads(*list, tree) implies path_bytes(out@)
                == before + found(tree, dir@, max_depth as nat, depth as nat) by {
                assert(tree(dir@) is None);
                assert(path_bytes(out@) =~= before + Seq::empty());
            }
            return;
        },
    };
    let ghost texts = entry_texts(entries@);
    let mut i: usize = 0;
    assert(texts.take(0) =~= Seq::empty());
    assert forall|tree: Tree| #[trigger] reads(*list, tree) implies path_bytes(out@) == before
        + found_among(tree, texts.take(0), max_depth as nat, depth as nat) by {
        assert(path_bytes(out@) =~= before + Seq::empty());
    }
    while i < entries.len()
        invariant
            i <= entries@.len(),
            depth <= max_depth,
            forall|d: &Vec<u8>| call_requires(*list, (d,)),
            texts == entry_texts(entries@),
            forall|tree: Tree| #[trigger]
                reads(*list, tree) ==> path_bytes(out@) == before + found_among(
                    tree,
                    texts.take(i as int),
                    max_depth as nat,
                    depth as nat,
                ),
            all_wallpapers(before) ==> all_wallpapers(path_bytes(out@)),
        decreases entries@.len() - i,
    {
        let ghost was = path_bytes(out@);
        let entry = &entries[i];
        assert(entry@ == texts[i as int]);
        if entry.kind == Kind::Directory && depth < max_depth {
            walk(&entry.path, max_depth, depth + 1, list, out);
        } else if entry.kind == Kind::File && is_wallpaper(&entry.path) {
            let path = entry.path.clone();
            assert(path@ =~= entry.path@);
            let ghost held = out@;
            out.push(path);
            assert(path_bytes(out@) =~= path_bytes(held) + seq![texts[i as int].path]);
        } else {
            assert(path_bytes(out@) =~= was + Seq::empty());
        }
        assert(texts.take(i + 1).drop_last() =~= texts.take(i as int));
        assert forall|tree: Tree| #[trigger] reads(*list, tree) implies path_bytes(out@) == before
            + found_among(tree, texts.take(i + 1), max_depth as nat, depth as nat) by {
            let at = found_at(tree, texts[i as int], max_depth as nat, depth as nat);
            let among = found_among(tree, texts.take(i as int), max_depth as nat, depth as nat);
            assert(path_bytes(out@) == was + at);
            assert(was + at =~= before + (among + at));
        }
        i = i + 1;
    }
    assert(texts.take(i as int) =~= texts);
}

/// The directory that a search path means.
pub open spec fn root(sp: SearchPath, home: Option<Seq<char>>) -> Seq<u8> {
    vstd::utf8::encode_utf8(config::tilde_expanded(sp.path@, home))
}

/// What the walk of all search paths finds, one after the other.
pub open spec fn collected(
    tree: Tree,
    search_paths: Seq<SearchPath>,
    home: Option<Seq<char>>,
) -> Seq<Seq<u8>>
    decreases search_paths.len(),
{
    if search_paths.len() == 0 {
        Seq::empty()
    } else {
        let sp = search_paths.last();
        collected(tree, search_paths.drop_last(), home) + found(
            tree,
            root(sp, home),
            sp.depth as nat,
            0,
        )
    }
}

/// The wallpapers in the search paths. `list` reads a directory, and returns nothing where it
/// cannot be read. Whatever it returns, none but wallpapers come back.
pub fn collect<F: Fn(&Vec<u8>) -> Option<Vec<Entry>>>(
    search_paths: &Vec<SearchPath>,
    home: Option<&str>,
    list: &F,
) -> (r: Vec<Vec<u8>>)
    requires
        forall|d: &Vec<u8>| call_requires(*list, (d,)),
    ensures
        forall|tree: Tree| #[trigger]
            reads(*list, tree) ==> path_bytes(r@) == collected(
                tree,
                search_paths@,
                text::str_view(home),
            ),
        all_wallpapers(path_bytes(r@)),
{
    let mut r: Vec<Vec<u8>> = Vec::new();
    let mut i: usize = 0;
    assert(search_paths@.take(0) =~= Seq::empty());
    assert(path_bytes(r@) =~= Seq::empty());
    while i < search_paths.len()
        invariant
            i <= search_paths@.len(),
            forall|d: &Vec<u8>| call_requires(*list, (d,)),
            forall|tree: Tree| #[trigger]
                reads(*list, tree) ==> path_bytes(r@) == collected(
                    tree,
                    search_paths@.take(i as int),
                    text::str_view(home),
                ),
            all_wallpapers(path_bytes(r@)),
        decreases search_paths@.len() - i,
    {
        let sp = &search_paths[i];
        let expanded = config::expand_tilde(sp.path.as_str(), home);
        let dir = expanded.as_str().as_bytes_vec();
        assert(search_paths@.take(i + 1).drop_last() =~= search_paths@.take(i as int));
        walk(&dir, sp.depth, 0, list, &mut r);
        i = i + 1;
    }
    assert(search_paths@.take(i as int) =~= search_paths@);
    r
}

/// `rand::seq::IndexedRandom::choose` with the generator of the thread: a random position of
/// the slice, or none where the slice is empty. Which one is left open. Where the system
/// gives the generator no seed, the call panics.
#[verifier::external_body]
fn choose_one(items: &Vec<Vec<u8>>) -> (r: Option<Vec<u8>>)
    ensures
        r is None <==> items@.len() == 0,
        r is Some ==> path_bytes(items@).contains(r->0@),
{
    items.choose(&mut rand::rng()).cloned()
}

/// A random wallpaper of those in the search paths, or none where there are none.
pub fn pick_random<F: Fn(&Vec<u8>) -> Option<Vec<Entry>>>(
    search_paths: &Vec<SearchPath>,
    home: Option<&str>,
    list: &F,
) -> (r: Option<Vec<u8>>)
    requires
        forall|d: &Vec<u8>| call_requires(*list, (d,)),
    ensures
        forall|tree: Tree| #[trigger]
            reads(*list, tree) ==> {
                let all = collected(tree, search_paths@, text::str_view(home));
                &&& r is None <==> all.len() == 0
                &&& r is Some ==> all.contains(r->0@)
            },
        r is Some ==> names_wallpaper(r->0@),
{
    let wallpapers = collect(search_paths, home, list);
    choose_one(&wallpapers)
}

/// Two file systems agree on a directory and on so many levels of directories below it.
pub open spec fn agree(a: Tree, b: Tree, dir: Seq<u8>, levels: nat) -> bool
    decreases levels,
{
    &&& a(dir) == b(dir)
    &&& levels > 0 && a(dir) is Some ==> forall|i: int|
        0 <= i < a(dir)->0.len() && (#[trigger] a(dir)->0[i]).kind == Kind::Directory ==> agree(
            a,
            b,
            a(dir)->0[i].path,
            (levels - 1) as nat,
        )
}

/// The depth of a search path bounds the walk: what lies deeper makes no difference. At
/// depth 0 that is everything but the top level, at depth 1 everything but the top level and
/// one level of subdirectories.
pub proof fn depth_law(a: Tree, b: Tree, dir: Seq<u8>, max_depth: nat, depth: nat)
    requires
        depth <= max_depth,
        agree(a, b, dir, (max_depth - depth) as nat),
    ensures
        found(a, dir, max_depth, depth) == found(b, dir, max_depth, depth),
    decreases (max_depth - depth), 1nat, 0nat,
{
    match a(dir) {
        Some(entries) => {
            depth_among(a, b, dir, entries.len() as int, max_depth, depth);
            assert(entries.take(entries.len() as int) =~= entries);
        },
        None => {},
    }
}

/// The first `n` entries of a directory on which two file systems agree.
proof fn depth_among(a: Tree, b: Tree, dir: Seq<u8>, n: int, max_depth: nat, depth: nat)
    requires
        depth <= max_depth,
        agree(a, b, dir, (max_depth - depth) as nat),
        a(dir) is Some,
        0 <= n <= a(dir)->0.len(),
    ensures
        found_among(a, a(dir)->0.take(n), max_depth, depth) == found_among(
            b,
            a(dir)->0.take(n),
            max_depth,
            depth,
        ),
    decreases (max_depth - depth), 0nat, n,
{
    if n > 0 {
        let entries = a(dir)->0;
        let last = entries[n - 1];
        depth_among(a, b, dir, n - 1, max_depth, depth);
        assert(entries.take(n).drop_last() =~= entries.take(n - 1));
        if last.kind == Kind::Directory && depth < max_depth {
            depth_law(a, b, last.path, max_depth, depth + 1);
        }
        assert(found_at(a, last, max_depth, depth) == found_at(b, last, max_depth, depth)) by {
            reveal_with_fuel(found_at, 2);
        }
    }
}

/// The file at this path lies in the directory, or up to so many levels of directories below.
pub open spec fn lies_within(tree: Tree, dir: Seq<u8>, path: Seq<u8>, levels: nat) -> bool
    decreases levels, 1nat,
{
    tree(dir) is Some && exists|i: int|
        0 <= i < tree(dir)->0.len() && reaches(tree, #[trigger] tree(dir)->0[i], path, levels)
}

/// The entry is the file at this path, or a directory that may be followed so many levels and
/// in which the file lies.
pub open spec fn reaches(tree: Tree, entry: EntryText, path: Seq<u8>, levels: nat) -> bool
    decreases levels, 0nat,
{
    ||| entry.kind == Kind::File && entry.path == path
    ||| entry.kind == Kind::Directory && levels > 0 && lies_within(
        tree,
        entry.path,
        path,
        (levels - 1) as nat,
    )
}

/// The walk of a directory finds the wallpapers that lie within its depth, and nothing else.
pub proof fn wallpapers_law(tree: Tree, dir: Seq<u8>, max_depth: nat, depth: nat, path: Seq<u8>)
    requires
        depth <= max_depth,
    ensures
        found(tree, dir, max_depth, depth).contains(path) <==> names_wallpaper(path)
            && lies_within(tree, dir, path, (max_depth - depth) as nat),
    decreases (max_depth - depth), 1nat, 0nat,
{
    let levels = (max_depth - depth) as nat;
    match tree(dir) {
        Some(entries) => {
            wallpapers_among(tree, entries, max_depth, depth, path);
            assert(lies_within(tree, dir, path, levels) <==> exists|i: int|
                0 <= i < entries.len() && reaches(tree, #[trigger] entries[i], path, levels));
        },
        None => {},
    }
}

/// The walk finds among the entries the wallpapers that they reach, and nothing else.
proof fn wallpapers_among(
    tree: Tree,
    entries: Seq<EntryText>,
    max_depth: nat,
    depth: nat,
    path: Seq<u8>,
)
    requires
        depth <= max_depth,
    ensures
        found_among(tree, entries, max_depth, depth).contains(path) <==> names_wallpaper(path)
            && exists|i: int|
            0 <= i < entries.len() && reaches(
                tree,
                #[trigger] entries[i],
                path,
                (max_depth - depth) as nat,
            ),
    decreases (max_depth - depth), 0nat, entries.len(),
{
    if entries.len() > 0 {
        let front = entries.drop_last();
        let last = entries.last();
        let levels = (max_depth - depth) as nat;
        wallpapers_among(tree, front, max_depth, depth, path);
        if last.kind == Kind::Directory && depth < max_depth {
            wallpapers_law(tree, last.path, max_depth, depth + 1, path);
        }
        let at = found_at(tree, last, max_depth, depth);
        seqs::contains_add(found_among(tree, front, max_depth, depth), at);
        assert(at.contains(path) <==> names_wallpaper(path) && reaches(tree, last, path, levels))
            by {
            reveal_with_fuel(found_at, 2);
            if last.kind == Kind::File && names_wallpaper(last.path) {
                assert(at == seq![last.path]);
                assert(at[0] == last.path);
            }
        }
        assert((exists|i: int|
            0 <= i < entries.len() && reaches(tree, #[trigger] entries[i], path, levels)) <==> (
        exists|i: int| 0 <= i < front.len() && reaches(tree, #[trigger] front[i], path, levels))
            || reaches(tree, last, path, levels)) by {
            if exists|i: int|
                0 <= i < front.len() && reaches(tree, #[trigger] front[i], path, levels) {
                let i = choose|i: int|
                    0 <= i < front.len() && reaches(tree, #[trigger] front[i], path, levels);
                assert(reaches(tree, entries[i], path, levels));
            }
            if reaches(tree, last, path, levels) {
                assert(reaches(tree, entries[entries.len() - 1], path, levels));
            }
            if exists|i: int|
                0 <= i < entries.len() && reaches(tree, #[trigger] entries[i], path, levels) {
                let i = choose|i: int|
                    0 <= i < entries.len() && reaches(tree, #[trigger] entries[i], path, levels);
                if i < front.len() {
                    assert(reaches(tree, front[i], path, levels));
                }
            }
        }
    }
}

/// The file at this path lies within the depth of a search path.
pub open spec fn is_searched(
    tree: Tree,
    sp: SearchPath,
    home: Option<Seq<char>>,
    path: Seq<u8>,
) -> bool {
    lies_within(tree, root(sp, home), path, sp.depth as nat)
}

/// The search paths hold a path exactly when it names a wallpaper and lies within the depth of
/// one of them.
pub proof fn search_law(
    tree: Tree,
    search_paths: Seq<SearchPath>,
    home: Option<Seq<char>>,
    path: Seq<u8>,
)
    ensures
        collected(tree, search_paths, home).contains(path) <==> names_wallpaper(path)
            && exists|i: int|
            0 <= i < search_paths.len() && is_searched(
                tree,
                #[trigger] search_paths[i],
                home,
                path,
            ),
    decreases search_paths.len(),
{
    if search_paths.len() > 0 {
        let front = search_paths.drop_last();
        let sp = search_paths.last();
        search_law(tree, front, home, path);
        wallpapers_law(tree, root(sp, home), sp.depth as nat, 0, path);
        seqs::contains_add(
            collected(tree, front, home),
            found(tree, root(sp, home), sp.depth as nat, 0),
        );
        if exists|i: int|
            0 <= i < front.len() && is_searched(tree, #[trigger] front[i], home, path) {
            let i = choose|i: int|
                0 <= i < front.len() && is_searched(tree, #[trigger] front[i], home, path);
            assert(is_searched(tree, search_paths[i], home, path));
        }
        if is_searched(tree, sp, home, path) {
            assert(is_searched(tree, search_paths[search_paths.len() - 1], home, path));
        }
        if exists|i: int|
            0 <= i < search_paths.len() && is_searched(
                tree,
                #[trigger] search_paths[i],
                home,
                path,
            ) {
            let i = choose|i: int|
                0 <= i < search_paths.len() && is_searched(
                    tree,
                    #[trigger] search_paths[i],
                    home,
                    path,
                );
            if i < front.len() {
                assert(is_searched(tree, front[i], home, path));
            }
        }
    }
}

/// What joined lists of search paths hold is what the first holds and then what the second
/// holds.
pub proof fn joined_search_law(
    tree: Tree,
    first: Seq<SearchPath>,
    second: Seq<SearchPath>,
    home: Option<Seq<char>>,
)
    ensures
        collected(tree, first + second, home) == collected(tree, first, home) + collected(
            tree,
            second,
            home,
        ),
    decreases second.len(),
{
    if second.len() == 0 {
        assert(first + second =~= first);
        assert(collected(tree, first, home) + Seq::empty() =~= collected(tree, first, home));
    } else {
        joined_search_law(tree, first, second.drop_last(), home);
        assert((first + second).drop_last() =~= first + second.drop_last());
        let sp = second.last();
        let last = found(tree, root(sp, home), sp.depth as nat, 0);
        assert((collected(tree, first, home) + collected(tree, second.drop_last(), home)) + last
            =~= collected(tree, first, home) + (collected(tree, second.drop_last(), home) + last));
    }
}

/// The extensions of wallpapers: these seven, in lower case, and no other.
pub proof fn extension_set_law(e: Seq<char>)
    ensures
        is_extension(e) <==> seq![
            "mp4"@,
            "mkv"@,
            "webm"@,
            "avi"@,
            "mov"@,
            "gif"@,
            "ogv"@,
        ].contains(e),
        is_extension(e) ==> vstd::utf8::is_ascii_chars(e) && text::ascii_lowercase(e) == e,
{
    let all = seq!["mp4"@, "mkv"@, "webm"@, "avi"@, "mov"@, "gif"@, "ogv"@];
    assert(all[0] == "mp4"@ && all[1] == "mkv"@ && all[2] == "webm"@ && all[3] == "avi"@ && all[4]
        == "mov"@ && all[5] == "gif"@ && all[6] == "ogv"@);
    if all.contains(e) {
        let i = choose|i: int| 0 <= i < all.len() && all[i] == e;
        assert(i == 0 || i == 1 || i == 2 || i == 3 || i == 4 || i == 5 || i == 6);
    }
    reveal_strlit("mp4");
    reveal_strlit("mkv");
    reveal_strlit("webm");
    reveal_strlit("avi");
    reveal_strlit("mov");
    reveal_strlit("gif");
    reveal_strlit("ogv");
    if is_extension(e) {
        assert(text::ascii_lowercase(e) =~= e);
    }
}

/// What names a wallpaper is the extension of the file alone, in any case: neither the
/// directory nor the rest of the name plays a part. A name without an extension names none.
pub proof fn naming_law(dir: Seq<u8>, stem: Seq<u8>, extension: Seq<u8>)
    requires
        !stem.contains(47u8),
        !extension.contains(47u8),
        !extension.contains(46u8),
        extension.len() > 0,
    ensures
        stem.len() > 0 ==> (names_wallpaper(dir.push(47u8) + (stem.push(46u8) + extension)) <==> {
            &&& vstd::utf8::valid_utf8(extension)
            &&& is_extension(text::lowercase_text(vstd::utf8::decode_utf8(extension)))
        }),
        stem.len() > 0 ==> (names_wallpaper(stem.push(46u8) + extension) <==> names_wallpaper(
            dir.push(47u8) + (stem.push(46u8) + extension),
        )),
        !names_wallpaper(dir.push(47u8) + extension),
        !names_wallpaper(dir.push(47u8) + (seq![46u8] + extension)),
{
    if stem.len() > 0 {
        paths::path_extension_law(dir, stem, extension, 47u8, 46u8);
    }
    paths::extension_law(stem, extension, 46u8);
    assert(extension.contains(extension[0]));
    assert(extension != seq![46u8, 46u8] && extension != seq![46u8]) by {
        if extension == seq![46u8, 46u8] || extension == seq![46u8] {
            assert(extension[0] == 46u8);
        }
    }
    paths::file_name_law(dir, extension, 47u8, 46u8);
    let hidden = seq![46u8] + extension;
    assert(hidden[1] == extension[0]);
    assert(!hidden.contains(47u8)) by {
        if hidden.contains(47u8) {
            let i = choose|i: int| 0 <= i < hidden.len() && hidden[i] == 47u8;
            assert(extension[i - 1] == 47u8);
        }
    }
    assert(hidden.len() >= 2);
    paths::file_name_law(dir, hidden, 47u8, 46u8);
}

/// The walk goes through the entries of a directory in order: what the first of them give
/// comes before what the others give. A file gives itself or nothing; a directory gives what
/// its own walk finds, one level down, or nothing where it is too deep.
pub proof fn walk_order_law(
    tree: Tree,
    first: Seq<EntryText>,
    second: Seq<EntryText>,
    entry: EntryText,
    max_depth: nat,
    depth: nat,
)
    requires
        depth <= max_depth,
    ensures
        found_among(tree, first + second, max_depth, depth) == found_among(
            tree,
            first,
            max_depth,
            depth,
        ) + found_among(tree, second, max_depth, depth),
        entry.kind == Kind::File ==> found_among(tree, seq![entry], max_depth, depth) == (
        if names_wallpaper(entry.path) {
            seq![entry.path]
        } else {
            Seq::empty()
        }),
        entry.kind == Kind::Directory ==> found_among(tree, seq![entry], max_depth, depth)
            == if depth < max_depth {
            found(tree, entry.path, max_depth, depth + 1)
        } else {
            Seq::empty()
        },
        entry.kind == Kind::Other ==> found_among(tree, seq![entry], max_depth, depth).len() == 0,
    decreases second.len(),
{
    let alone = seq![entry];
    assert(alone.drop_last() =~= Seq::empty());
    let none = found_among(tree, alone.drop_last(), max_depth, depth);
    assert(none =~= Seq::empty()) by {
        reveal_with_fuel(found_among, 2);
    }
    let at = found_at(tree, entry, max_depth, depth);
    assert(found_among(tree, alone, max_depth, depth) == none + at);
    assert(none + at =~= at);
    if second.len() == 0 {
        assert(first + second =~= first);
        assert(found_among(tree, first, max_depth, depth) + Seq::empty() =~= found_among(
            tree,
            first,
            max_depth,
            depth,
        ));
    } else {
        walk_order_law(tree, first, second.drop_last(), entry, max_depth, depth);
        assert((first + second).drop_last() =~= first + second.drop_last());
        let last = found_at(tree, second.last(), max_depth, depth);
        assert((found_among(tree, first, max_depth, depth) + found_among(
            tree,
            second.drop_last(),
            max_depth,
            depth,
        )) + last =~= found_among(tree, first, max_depth, depth) + (found_among(
            tree,
            second.drop_last(),
            max_depth,
            depth,
        ) + last));
    }
}

/// One search path: its directory, with the home directory filled in, is walked as deep as the
/// search path says, and the level on which the walk starts is the directory itself.
pub proof fn search_path_law(tree: Tree, sp: SearchPath, home: Option<Seq<char>>)
    ensures
        collected(tree, seq![sp], home) == found(
            tree,
            vstd::utf8::encode_utf8(config::tilde_expanded(sp.path@, home)),
            sp.depth as nat,
            0,
        ),
        collected(tree, Seq::empty(), home).len() == 0,
{
    let one = seq![sp];
    assert(one.drop_last() =~= Seq::empty());
    assert(collected(tree, one.drop_last(), home) =~= Seq::empty());
    assert(Seq::empty() + found(tree, root(sp, home), sp.depth as nat, 0) =~= found(
        tree,
        root(sp, home),
        sp.depth as nat,
        0,
    ));
}

/// A directory that cannot be read gives nothing, and one that can be read gives what its
/// entries give.
pub proof fn unreadable_law(tree: Tree, dir: Seq<u8>, max_depth: nat, depth: nat)
    requires
        depth <= max_depth,
    ensures
        tree(dir) is None ==> found(tree, dir, max_depth, depth).len() == 0,
        tree(dir) matches Some(entries) ==> found(tree, dir, max_depth, depth) == found_among(
            tree,
            entries,
            max_depth,
            depth,
        ),
{
}

} // verus!
