//! Paths: where an archive is unpacked to, and the directory and file that an
//! entry's name stands for.

use vstd::prelude::*;

verus! {

/// The index just past the last `/` among the first `n` characters of `s`,
/// or 0 where there is none.
pub open spec fn slash_end(s: Seq<char>, n: int) -> int
    decreases n,
{
    if n <= 0 {
        0
    } else if s[n - 1] == '/' {
        n
    } else {
        slash_end(s, n - 1)
    }
}

/// The part of `name` behind its last `/`: all of it where it holds none.
pub open spec fn leaf_of(name: Seq<char>) -> Seq<char> {
    name.subrange(slash_end(name, name.len() as int), name.len() as int)
}

/// The part of `name` before its last `/`: nothing where it holds none.
pub open spec fn directory_of(name: Seq<char>) -> Seq<char> {
    if slash_end(name, name.len() as int) == 0 {
        Seq::empty()
    } else {
        name.subrange(0, slash_end(name, name.len() as int) - 1)
    }
}

/// The index of the last `.` in the last component of the first `n`
/// characters of `s`, or -1 where that component holds none.
pub open spec fn extension_dot(s: Seq<char>, n: int) -> int
    decreases n,
{
    if n <= 0 || s[n - 1] == '/' {
        -1
    } else if s[n - 1] == '.' {
        n - 1
    } else {
        extension_dot(s, n - 1)
    }
}

/// `path` without the extension of its last component.
pub open spec fn root_of(path: Seq<char>) -> Seq<char> {
    if extension_dot(path, path.len() as int) < 0 {
        path
    } else {
        path.subrange(0, extension_dot(path, path.len() as int))
    }
}

/// Bounds of `slash_end`, and that no `/` follows it.
pub proof fn lemma_slash_end(s: Seq<char>, n: int)
    requires
        0 <= n <= s.len(),
    ensures
        0 <= slash_end(s, n) <= n,
        slash_end(s, n) > 0 ==> s[slash_end(s, n) - 1] == '/',
        forall|k: int| slash_end(s, n) <= k < n ==> s[k] != '/',
    decreases n,
{
    if n > 0 && s[n - 1] != '/' {
        lemma_slash_end(s, n - 1);
    }
}

/// A name splits at its last `/`: the directory, the `/` and the leaf make up
/// the name again, and the leaf holds no `/`. A name without `/` is all leaf.
pub proof fn lemma_split_joins(name: Seq<char>)
    ensures
        !leaf_of(name).contains('/'),
        name.contains('/') ==> name == directory_of(name) + seq!['/'] + leaf_of(name),
        !name.contains('/') ==> directory_of(name).len() == 0 && leaf_of(name) == name,
{
    let n = name.len() as int;
    let cut = slash_end(name, n);
    lemma_slash_end(name, n);
    if name.contains('/') {
        let k = choose|k: int| 0 <= k < n && name[k] == '/';
        assert(cut > 0);
        assert(name =~= directory_of(name) + seq!['/'] + leaf_of(name));
    } else {
        if cut > 0 {
            assert(name.contains(name[cut - 1]));
        }
        assert(leaf_of(name) =~= name);
    }
    if leaf_of(name).contains('/') {
        let k = choose|k: int| 0 <= k < leaf_of(name).len() && leaf_of(name)[k] == '/';
        assert(name[cut + k] == '/');
    }
}

/// The first `n` characters of `s` hold no `/` behind `from`, which holds one
/// just before it: then `slash_end` is `from`.
proof fn lemma_slash_end_found(s: Seq<char>, from: int, n: int)
    requires
        0 < from <= n <= s.len(),
        s[from - 1] == '/',
        forall|k: int| from <= k < n ==> s[k] != '/',
    ensures
        slash_end(s, n) == from,
    decreases n,
{
    if from < n {
        lemma_slash_end_found(s, from, n - 1);
    }
}

/// A directory, a `/` and a file name without `/` make a name that splits
/// back into the two.
pub proof fn lemma_split_of_join(directory: Seq<char>, leaf: Seq<char>)
    requires
        !leaf.contains('/'),
    ensures
        directory_of(directory + seq!['/'] + leaf) == directory,
        leaf_of(directory + seq!['/'] + leaf) == leaf,
{
    let name = directory + seq!['/'] + leaf;
    let cut = directory.len() as int + 1;
    assert forall|k: int| cut <= k < name.len() implies name[k] != '/' by {
        assert(name[k] == leaf[k - cut]);
        assert(leaf.contains(leaf[k - cut]));
    }
    lemma_slash_end_found(name, cut, name.len() as int);
    assert(directory_of(name) =~= directory);
    assert(leaf_of(name) =~= leaf);
}

/// The first `n` characters of `s` hold neither `/` nor `.` behind `dot`,
/// which holds a `.`: then `extension_dot` is `dot`.
proof fn lemma_extension_dot_found(s: Seq<char>, dot: int, n: int)
    requires
        0 <= dot < n <= s.len(),
        s[dot] == '.',
        forall|k: int| dot < k < n ==> s[k] != '/' && s[k] != '.',
    ensures
        extension_dot(s, n) == dot,
    decreases n,
{
    if dot + 1 < n {
        lemma_extension_dot_found(s, dot, n - 1);
    }
}

/// A path that ends in `.` and an extension has all before that `.` as its
/// root.
pub proof fn lemma_root_strips_extension(stem: Seq<char>, extension: Seq<char>)
    requires
        !extension.contains('/'),
        !extension.contains('.'),
    ensures
        root_of(stem + seq!['.'] + extension) == stem,
{
    let path = stem + seq!['.'] + extension;
    let dot = stem.len() as int;
    assert forall|k: int| dot < k < path.len() implies path[k] != '/' && path[k] != '.' by {
        assert(path[k] == extension[k - dot - 1]);
        assert(extension.contains(extension[k - dot - 1]));
    }
    lemma_extension_dot_found(path, dot, path.len() as int);
    assert(root_of(path) =~= stem);
}

/// Splits an entry's name at its last `/` into the directory it lies in and
/// the name of the file.
pub fn split_name(name: &str) -> (r: (String, String))
    ensures
        r.0@ == directory_of(name@),
        r.1@ == leaf_of(name@),
{
    let n = name.unicode_len();
    let mut cut: usize = n;
    let mut found = false;
    while cut > 0 && !found
        invariant
            cut <= n,
            n == name@.len(),
            slash_end(name@, n as int) == slash_end(name@, cut as int),
            found ==> cut > 0 && name@[cut - 1] == '/',
        decreases cut + if found { 0int } else { 1int },
    {
        if name.get_char(cut - 1) == '/' {
            found = true;
        } else {
            cut = cut - 1;
        }
    }
    let leaf = name.substring_char(cut, n).to_owned();
    if cut == 0 {
        (String::new(), leaf)
    } else {
        (name.substring_char(0, cut - 1).to_owned(), leaf)
    }
}

/// The directory that the archive at `path` is unpacked into: the path
/// without the extension of its last component.
pub fn extraction_root(path: &str) -> (root: String)
    ensures
        root@ == root_of(path@),
{
    let n = path.unicode_len();
    let mut i: usize = n;
    while i > 0
        invariant
            i <= n,
            n == path@.len(),
            extension_dot(path@, n as int) == extension_dot(path@, i as int),
        decreases i,
    {
        let c = path.get_char(i - 1);
        if c == '/' {
            return path.to_owned();
        }
        if c == '.' {
            return path.substring_char(0, i - 1).to_owned();
        }
        i = i - 1;
    }
    path.to_owned()
}

} // verus!
