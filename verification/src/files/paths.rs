//! Names derived from paths and addresses, and the layout of the font
//! directories below the user's home directory.
//!
//! Paths are plain strings with `/` between their components.

use vstd::prelude::*;
use vstd::string::*;
use crate::errors::{FontError, FontErrorView};
use crate::text::{
    chars_of, find_last, first_index_of, last_index_of, lemma_first_index_of,
    lemma_first_index_of_unique, lemma_last_index_of, str_equal,
};

verus! {

/// Directory below the user's home directory that holds one directory per font.
pub const INSTALL_PATH: &'static str = ".fonts";

/// The directory of the font `font_name` for a user whose home is `home`.
pub open spec fn font_dir_of(home: Seq<char>, font_name: Seq<char>) -> Seq<char> {
    home + seq!['/'] + INSTALL_PATH@ + seq!['/'] + font_name
}

/// What follows the last `/` of `path`: all of it where it holds no `/`.
pub open spec fn base_name_of(path: Seq<char>) -> Seq<char> {
    path.skip(last_index_of(path, '/') + 1)
}

/// A base name without its extension: what stands before its last `.`,
/// unless it holds no `.` or only starts with one.
pub open spec fn stem_of(base: Seq<char>) -> Seq<char> {
    let dot = last_index_of(base, '.');
    if dot <= 0 {
        base
    } else {
        base.take(dot)
    }
}

/// A base name that names a file: not empty, not `.` and not `..`.
pub open spec fn usable_base(base: Seq<char>) -> bool {
    base.len() > 0 && base != seq!['.'] && base != seq!['.', '.']
}

/// The font name that an archive at `path` is installed under, if its base
/// name is usable.
pub open spec fn font_name_of(path: Seq<char>) -> Option<Seq<char>> {
    if usable_base(base_name_of(path)) {
        Some(stem_of(base_name_of(path)))
    } else {
        None
    }
}

/// The name of the file that an archive fetched from `url` is kept in.
pub open spec fn download_path_of(url: Seq<char>) -> Seq<char> {
    seq!['.', '/'] + base_name_of(url)
}

/// Top-level directory of an archive whose entries are never installed.
pub const IGNORED_SUBTREE: &'static str = "Windows";

/// Whether the components of `s`, walked from `depth` levels below a root,
/// never lead above that root. An empty component and `.` stay where they
/// are, `..` climbs one level, any other component descends one.
pub open spec fn stays_below(s: Seq<char>, depth: nat) -> bool
    decreases s.len(),
{
    let k = first_index_of(s, '/');
    let seg = s.take(k);
    let level: int = if seg == seq!['.', '.'] {
        depth as int - 1
    } else if seg.len() == 0 || seg == seq!['.'] {
        depth as int
    } else {
        depth as int + 1
    };
    level >= 0 && if 0 <= k < s.len() {
        stays_below(s.skip(k + 1), level as nat)
    } else {
        true
    }
}

/// A relative path that stays inside the directory it is resolved in: it
/// holds no NUL, does not start at the root, and none of its prefixes
/// climbs above its starting point.
pub open spec fn contained(rel: Seq<char>) -> bool {
    &&& !rel.contains('\0')
    &&& (rel.len() > 0 ==> rel[0] != '/')
    &&& stays_below(rel, 0)
}

/// A component that names one level below a directory: it is not empty,
/// not `.` and not `..`, and holds neither `/` nor NUL.
pub open spec fn plain(part: Seq<char>) -> bool {
    &&& part.len() > 0
    &&& part != seq!['.']
    &&& part != seq!['.', '.']
    &&& !part.contains('/')
    &&& !part.contains('\0')
}

/// The components that are left when `s` is resolved on top of the
/// components `stack`: an empty component and `.` change nothing, `..`
/// takes the last component away if there is one, any other component is
/// added.
pub open spec fn resolve(s: Seq<char>, stack: Seq<Seq<char>>) -> Seq<Seq<char>>
    decreases s.len(),
{
    let k = first_index_of(s, '/');
    let seg = s.take(k);
    let upper = if seg == seq!['.', '.'] {
        if stack.len() > 0 {
            stack.drop_last()
        } else {
            stack
        }
    } else if seg.len() == 0 || seg == seq!['.'] {
        stack
    } else {
        stack.push(seg)
    };
    if 0 <= k < s.len() {
        resolve(s.skip(k + 1), upper)
    } else {
        upper
    }
}

/// The components of the place that the relative path `rel` names, from
/// the directory it is resolved in downwards.
pub open spec fn normal_components(rel: Seq<char>) -> Seq<Seq<char>> {
    resolve(rel, Seq::<Seq<char>>::empty())
}

/// The components `parts` with `/` between them.
pub open spec fn joined(parts: Seq<Seq<char>>) -> Seq<char>
    decreases parts.len(),
{
    if parts.len() == 0 {
        Seq::<char>::empty()
    } else if parts.len() == 1 {
        parts[0]
    } else {
        joined(parts.drop_last()) + seq!['/'] + parts.last()
    }
}

/// The place of the archive entry `rel` inside the font directory `dir`:
/// the directory, then the components that `rel` resolves to.
pub open spec fn entry_path_of(dir: Seq<char>, rel: Seq<char>) -> Seq<char> {
    dir + seq!['/'] + joined(normal_components(rel))
}

/// `path` lies inside the directory `dir`: it is `dir` followed by
/// components that each name one level further down.
pub open spec fn within(dir: Seq<char>, path: Seq<char>) -> bool {
    exists|parts: Seq<Seq<char>>|
        path == dir + seq!['/'] + #[trigger] joined(parts) && forall|i: int|
            0 <= i < parts.len() ==> plain(#[trigger] parts[i])
}

/// The place that `rel` names lies in or below the ignored top-level
/// directory: the first of the components that `rel` resolves to is that
/// directory.
pub open spec fn in_ignored_subtree(rel: Seq<char>) -> bool {
    normal_components(rel).len() > 0 && normal_components(rel)[0] == IGNORED_SUBTREE@
}

/// The characters of each string of `v`.
pub open spec fn texts(v: Seq<String>) -> Seq<Seq<char>> {
    Seq::new(v.len(), |i: int| v[i]@)
}

/// Resolving a path without NUL on top of plain components leaves plain
/// components.
pub proof fn lemma_resolve_plain(s: Seq<char>, stack: Seq<Seq<char>>)
    requires
        !s.contains('\0'),
        forall|i: int| 0 <= i < stack.len() ==> plain(#[trigger] stack[i]),
    ensures
        forall|i: int|
            0 <= i < resolve(s, stack).len() ==> plain(#[trigger] resolve(s, stack)[i]),
    decreases s.len(),
{
    lemma_first_index_of(s, '/');
    let k = first_index_of(s, '/');
    let seg = s.take(k);
    let upper = if seg == seq!['.', '.'] {
        if stack.len() > 0 {
            stack.drop_last()
        } else {
            stack
        }
    } else if seg.len() == 0 || seg == seq!['.'] {
        stack
    } else {
        stack.push(seg)
    };
    assert(!seg.contains('/')) by {
        if seg.contains('/') {
            let j = choose|j: int| 0 <= j < seg.len() && seg[j] == '/';
            assert(s[j] == '/');
        }
    }
    assert(!seg.contains('\0')) by {
        if seg.contains('\0') {
            let j = choose|j: int| 0 <= j < seg.len() && seg[j] == '\0';
            assert(s[j] == '\0');
        }
    }
    assert forall|i: int| 0 <= i < upper.len() implies plain(#[trigger] upper[i]) by {
        if i < stack.len() {
            assert(upper[i] == stack[i]);
        }
    }
    if 0 <= k < s.len() {
        let rest = s.skip(k + 1);
        assert(!rest.contains('\0')) by {
            if rest.contains('\0') {
                let j = choose|j: int| 0 <= j < rest.len() && rest[j] == '\0';
                assert(s[j + k + 1] == '\0');
            }
        }
        lemma_resolve_plain(rest, upper);
        assert(resolve(s, stack) == resolve(rest, upper));
    } else {
        assert(resolve(s, stack) == upper);
    }
}

/// The place of an entry lies inside the font directory, whatever the
/// entry's path, so long as it holds no NUL.
pub proof fn lemma_entry_path_within(dir: Seq<char>, rel: Seq<char>)
    requires
        !rel.contains('\0'),
    ensures
        within(dir, entry_path_of(dir, rel)),
{
    lemma_resolve_plain(rel, Seq::<Seq<char>>::empty());
    let parts = normal_components(rel);
    assert(entry_path_of(dir, rel) == dir + seq!['/'] + joined(parts));
}

/// The directory that holds `path`: what stands before its last `/`, or
/// nothing where it holds none.
pub open spec fn parent_of(path: Seq<char>) -> Seq<char> {
    let slash = last_index_of(path, '/');
    if slash < 0 {
        Seq::<char>::empty()
    } else {
        path.take(slash)
    }
}

/// The directory of the font `font_name` below `home`.
pub fn font_dir(home: &str, font_name: &str) -> (dir: String)
    ensures
        dir@ == font_dir_of(home@, font_name@),
{
    proof {
        reveal_strlit("/");
    }
    let mut dir = String::from_str(home);
    dir.append("/");
    dir.append(INSTALL_PATH);
    dir.append("/");
    dir.append(font_name);
    assert("/"@ == seq!['/']);
    dir
}

/// The directory of the font `font_name`, given the user's home directory
/// as it was resolved.
pub fn font_dir_in(home: &Option<String>, font_name: &str) -> (r: Result<String, FontError>)
    ensures
        match *home {
            Some(h) => r matches Ok(dir) && dir@ == font_dir_of(h@, font_name@),
            None => r matches Err(e) && e@ == FontErrorView::HomeNotFound,
        },
{
    match home {
        Some(h) => Ok(font_dir(h.as_str(), font_name)),
        None => Err(FontError::HomeNotFound),
    }
}

/// Calls `home::home_dir` and hands on the path it finds as a string; a
/// path that is not valid Unicode counts as not found. Nothing is claimed
/// of the outcome: it depends on the environment of the process.
#[verifier::external_body]
pub(crate) fn home_dir() -> (home: Option<String>) {
    match home::home_dir() {
        Some(path) => path.into_os_string().into_string().ok(),
        None => None,
    }
}

/// The directory of the font `font_name` of the current user. Fails with
/// `HomeNotFound` where the user's home directory cannot be resolved.
pub fn user_font_dir(font_name: &str) -> (r: Result<String, FontError>)
    ensures
        r matches Ok(dir) ==> exists|home: Seq<char>| dir@ == #[trigger] font_dir_of(
            home,
            font_name@,
        ),
        r matches Err(e) ==> e@ == FontErrorView::HomeNotFound,
{
    let home = home_dir();
    font_dir_in(&home, font_name)
}

/// The components that the relative path `rel` resolves to.
pub fn components(rel: &str) -> (parts: Vec<String>)
    ensures
        texts(parts@) == normal_components(rel@),
{
    let v = chars_of(rel);
    let n: usize = v.len();
    let mut parts: Vec<String> = Vec::new();
    let mut start: usize = 0;
    assert(v@.skip(0) == v@);
    assert(texts(parts@) == Seq::<Seq<char>>::empty());
    loop
        invariant
            start <= n,
            n == v.len(),
            v@ == rel@,
            normal_components(v@) == resolve(v@.skip(start as int), texts(parts@)),
        decreases n - start,
    {
        let mut k: usize = start;
        while k < n && v[k] != '/'
            invariant
                start <= k <= n,
                n == v.len(),
                forall|j: int| start <= j < k ==> v@[j] != '/',
            decreases n - k,
        {
            k = k + 1;
        }
        let ghost tail = v@.skip(start as int);
        let ghost seg = tail.take(k - start);
        let ghost before = texts(parts@);
        proof {
            lemma_first_index_of_unique(tail, '/', k - start);
            if k < n {
                assert(tail.skip(k - start + 1) == v@.skip(k + 1));
            }
            assert(seg.len() == k - start);
            assert(seg == rel@.subrange(start as int, k as int));
            if k - start >= 1 {
                assert(seg[0] == v@[start as int]);
            }
            if k - start >= 2 {
                assert(seg[1] == v@[start + 1]);
            }
        }
        let len: usize = k - start;
        if len == 2 && v[start] == '.' && v[start + 1] == '.' {
            assert(seg == seq!['.', '.']);
            let _ = parts.pop();
            assert(texts(parts@) == if before.len() > 0 {
                before.drop_last()
            } else {
                before
            });
        } else if len == 0 || (len == 1 && v[start] == '.') {
            assert(seg.len() == 0 || seg == seq!['.']);
            assert(seg != seq!['.', '.']) by {
                if seg == seq!['.', '.'] {
                    assert(seg.len() == 2);
                }
            }
        } else {
            assert(seg != seq!['.', '.']) by {
                if seg == seq!['.', '.'] {
                    assert(seg.len() == 2 && seg[0] == '.' && seg[1] == '.');
                }
            }
            assert(seg != seq!['.']) by {
                if seg == seq!['.'] {
                    assert(seg.len() == 1 && seg[0] == '.');
                }
            }
            let part = String::from_str(rel.substring_char(start, k));
            parts.push(part);
            assert(texts(parts@) == before.push(seg));
        }
        if k >= n {
            return parts;
        }
        start = k + 1;
    }
}

/// The components `parts` with `/` between them.
pub fn join(parts: &Vec<String>) -> (path: String)
    ensures
        path@ == joined(texts(parts@)),
{
    proof {
        reveal_strlit("/");
    }
    let mut path = String::new();
    let mut i: usize = 0;
    assert(texts(parts@).take(0) == Seq::<Seq<char>>::empty());
    while i < parts.len()
        invariant
            i <= parts.len(),
            path@ == joined(texts(parts@).take(i as int)),
            "/"@ == seq!['/'],
        decreases parts.len() - i,
    {
        let ghost head = texts(parts@).take(i as int);
        let ghost longer = texts(parts@).take(i + 1);
        proof {
            assert(longer.drop_last() == head);
            assert(longer.last() == parts@[i as int]@);
        }
        if i > 0 {
            path.append("/");
        }
        path.append(parts[i].as_str());
        proof {
            if i == 0 {
                assert(head.len() == 0);
                assert(path@ == parts@[0]@);
            }
        }
        i = i + 1;
    }
    assert(texts(parts@).take(parts.len() as int) == texts(parts@));
    path
}

/// The place of the archive entry `rel` inside the font directory `dir`.
pub fn entry_path(dir: &str, rel: &str) -> (path: String)
    ensures
        path@ == entry_path_of(dir@, rel@),
{
    proof {
        reveal_strlit("/");
    }
    let parts = components(rel);
    let below = join(&parts);
    let mut path = String::from_str(dir);
    path.append("/");
    path.append(below.as_str());
    assert("/"@ == seq!['/']);
    path
}

/// The place of the archive entry `p` of the font `d`, given the user's
/// home directory as it was resolved.
pub fn append_font_dir(home: &Option<String>, p: &str, d: &str) -> (r: Result<String, FontError>)
    ensures
        match *home {
            Some(h) => r matches Ok(path) && path@ == entry_path_of(font_dir_of(h@, d@), p@),
            None => r matches Err(e) && e@ == FontErrorView::HomeNotFound,
        },
{
    match font_dir_in(home, d) {
        Ok(dir) => Ok(entry_path(dir.as_str(), p)),
        Err(e) => Err(e),
    }
}

/// What follows the last `/` of `path`.
pub fn base_name(path: &str) -> (base: String)
    ensures
        base@ == base_name_of(path@),
{
    let chars = chars_of(path);
    let start: usize = match find_last(&chars, '/') {
        Some(i) => i + 1,
        None => 0,
    };
    proof {
        lemma_last_index_of(path@, '/');
        assert(path@.subrange(start as int, path@.len() as int) == path@.skip(start as int));
    }
    String::from_str(path.substring_char(start, chars.len()))
}

/// The font name that an archive at `path` is installed under: its base
/// name without the extension. Fails with `InvalidPath` where the base name
/// is empty, `.` or `..`.
pub fn archive_font_name(path: &str) -> (r: Result<String, FontError>)
    ensures
        match font_name_of(path@) {
            Some(name) => r matches Ok(n) && n@ == name,
            None => r matches Err(e) && e@ == FontErrorView::InvalidPath,
        },
{
    let base = base_name(path);
    let chars = chars_of(base.as_str());
    let n: usize = chars.len();
    if n == 0 {
        return Err(FontError::InvalidPath);
    }
    if n == 1 && chars[0] == '.' {
        assert(base@ == seq!['.']);
        return Err(FontError::InvalidPath);
    }
    if n == 2 && chars[0] == '.' && chars[1] == '.' {
        assert(base@ == seq!['.', '.']);
        return Err(FontError::InvalidPath);
    }
    assert(usable_base(base@)) by {
        if base@ == seq!['.'] {
            assert(base@.len() == 1 && base@[0] == '.');
        }
        if base@ == seq!['.', '.'] {
            assert(base@.len() == 2 && base@[0] == '.' && base@[1] == '.');
        }
    }
    let end: usize = match find_last(&chars, '.') {
        Some(dot) => if dot == 0 {
            n
        } else {
            dot
        },
        None => n,
    };
    proof {
        lemma_last_index_of(base@, '.');
        assert(base@.subrange(0, end as int) == stem_of(base@));
    }
    Ok(String::from_str(base.as_str().substring_char(0, end)))
}

/// The name of the file that an archive fetched from `url` is kept in: `./`
/// and what follows the last `/` of the address.
pub fn download_path(url: &str) -> (path: String)
    ensures
        path@ == download_path_of(url@),
{
    proof {
        reveal_strlit("./");
    }
    let base = base_name(url);
    let mut path = String::from_str("./");
    path.append(base.as_str());
    assert("./"@ == seq!['.', '/']);
    path
}

/// Whether the relative path `rel` stays inside the directory it is
/// resolved in.
pub fn is_contained(rel: &str) -> (r: bool)
    ensures
        r == contained(rel@),
{
    let v = chars_of(rel);
    let n: usize = v.len();
    let mut i: usize = 0;
    while i < n
        invariant
            i <= n,
            n == v.len(),
            v@ == rel@,
            forall|j: int| 0 <= j < i ==> v@[j] != '\0',
        decreases n - i,
    {
        if v[i] == '\0' {
            assert(v@.contains('\0'));
            return false;
        }
        i = i + 1;
    }
    assert(!v@.contains('\0'));
    if n > 0 && v[0] == '/' {
        return false;
    }
    let mut start: usize = 0;
    let mut depth: usize = 0;
    assert(v@.skip(0) == v@);
    loop
        invariant
            start <= n,
            n == v.len(),
            depth <= start,
            v@ == rel@,
            !v@.contains('\0'),
            n > 0 ==> v@[0] != '/',
            stays_below(v@, 0) == stays_below(v@.skip(start as int), depth as nat),
        decreases n - start,
    {
        let mut k: usize = start;
        while k < n && v[k] != '/'
            invariant
                start <= k <= n,
                n == v.len(),
                forall|j: int| start <= j < k ==> v@[j] != '/',
            decreases n - k,
        {
            k = k + 1;
        }
        let ghost tail = v@.skip(start as int);
        let ghost seg = tail.take(k - start);
        proof {
            lemma_first_index_of_unique(tail, '/', k - start);
            if k < n {
                assert(tail.skip(k - start + 1) == v@.skip(k + 1));
            }
            assert(seg.len() == k - start);
            if k - start >= 1 {
                assert(seg[0] == v@[start as int]);
            }
            if k - start >= 2 {
                assert(seg[1] == v@[start + 1]);
            }
        }
        let len: usize = k - start;
        if len == 2 && v[start] == '.' && v[start + 1] == '.' {
            assert(seg == seq!['.', '.']);
            if depth == 0 {
                assert(!stays_below(tail, 0));
                return false;
            }
            depth = depth - 1;
        } else if len == 0 || (len == 1 && v[start] == '.') {
            assert(seg.len() == 0 || seg == seq!['.']);
            assert(seg != seq!['.', '.']) by {
                if seg == seq!['.', '.'] {
                    assert(seg.len() == 2);
                }
            }
        } else {
            assert(seg != seq!['.', '.']) by {
                if seg == seq!['.', '.'] {
                    assert(seg.len() == 2 && seg[0] == '.' && seg[1] == '.');
                }
            }
            assert(seg != seq!['.']) by {
                if seg == seq!['.'] {
                    assert(seg.len() == 1 && seg[0] == '.');
                }
            }
            depth = depth + 1;
        }
        if k >= n {
            return true;
        }
        start = k + 1;
    }
}

/// Whether the place that `rel` names lies in or below the ignored
/// top-level directory.
pub fn is_in_ignored_subtree(rel: &str) -> (r: bool)
    ensures
        r == in_ignored_subtree(rel@),
{
    let parts = components(rel);
    if parts.len() == 0 {
        return false;
    }
    assert(texts(parts@)[0] == parts@[0]@);
    str_equal(parts[0].as_str(), IGNORED_SUBTREE)
}

/// The directory that holds `path`.
pub fn parent(path: &str) -> (dir: String)
    ensures
        dir@ == parent_of(path@),
{
    let v = chars_of(path);
    proof {
        lemma_last_index_of(path@, '/');
    }
    match find_last(&v, '/') {
        Some(slash) => {
            assert(path@.subrange(0, slash as int) == path@.take(slash as int));
            String::from_str(path.substring_char(0, slash))
        },
        None => String::new(),
    }
}

} // verus!
