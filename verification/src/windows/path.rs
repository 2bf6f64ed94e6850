//! Windows paths, taken apart.

use vstd::prelude::*;

use crate::text::{chars_of, find_char, lemma_until, same, split, split_on, until, views};

verus! {

/// What a component of a path is.
#[derive(Clone, Copy, Debug, PartialEq, Eq, Structural)]
pub enum PathPart {
    /// A drive, a share, a device or the start of a verbatim path.
    Prefix,
    RootDir,
    CurDir,
    ParentDir,
    Normal,
}

/// Whether `c` separates the components of a Windows path.
pub open spec fn is_separator(c: char) -> bool {
    c == '/' || c == '\\'
}

/// `path` with `/` for each separator.
pub open spec fn slashed(path: Seq<char>) -> Seq<char> {
    path.map_values(
        |c: char|
            if c == '\\' {
                '/'
            } else {
                c
            },
    )
}

/// `path` with `/` for each separator.
pub fn slashed_of(path: &str) -> (out: String)
    ensures
        out@ == slashed(path@),
{
    let chars = chars_of(path);
    let n: usize = chars.len();
    let mut out = String::new();
    let mut start: usize = 0;
    assert(slashed(path@.take(0)) =~= Seq::<char>::empty());
    loop
        invariant
            chars@ == path@,
            n == chars@.len(),
            start <= n,
            out@ == slashed(path@.take(start as int)),
        decreases n - start,
    {
        let at = find_char(&chars, start, '\\');
        proof {
            lemma_until(path@.skip(start as int), '\\');
        }
        let piece = path.substring_char(start, at);
        assert forall|k: int| 0 <= k < piece@.len() implies piece@[k] != '\\' by {
            assert(piece@[k] == path@.skip(start as int)[k]);
        }
        out.append(piece);
        assert(out@ =~= slashed(path@.take(at as int)));
        if at == n {
            assert(path@.take(n as int) == path@);
            return out;
        }
        out.append("/");
        proof {
            reveal_strlit("/");
            assert(path@[at as int] == path@.skip(start as int)[at - start]);
        }
        assert(out@ =~= slashed(path@.take(at + 1)));
        start = at + 1;
    }
}

/// What stands between the separators of `path`.
pub open spec fn components(path: Seq<char>) -> Seq<Seq<char>> {
    split(slashed(path), '/')
}

/// Whether `path` starts with a drive, such as `C:`.
pub open spec fn has_drive(path: Seq<char>) -> bool {
    path.len() >= 2 && path[1] == ':' && ('a' <= path[0] && path[0] <= 'z' || 'A' <= path[0]
        && path[0] <= 'Z')
}

/// The prefix of a path.
pub struct PathHead {
    /// How many characters it takes.
    pub len: int,
    /// Whether the rest is taken literally: only `\\` separates components, and `.` is one.
    pub verbatim: bool,
    /// Whether what follows stands below a root even where no separator says so.
    pub rooted: bool,
}

/// How many characters name a server and a share at the start of `s`, without the share and the
/// separator before it where there is no share.
pub open spec fn share_len(s: Seq<char>, separator: char) -> int {
    let server = until(s, separator);
    if server < s.len() {
        let share = until(s.skip(server + 1), separator);
        if share > 0 {
            server + 1 + share
        } else {
            server
        }
    } else {
        server
    }
}

/// The prefix of a verbatim path, one that starts with `\\?\`: a share after `UNC\`, a drive
/// alone, or whatever the first component is.
pub open spec fn verbatim_head(path: Seq<char>) -> PathHead {
    let rest = path.skip(4);
    let len = if slashed(rest).len() >= 4 && slashed(rest).take(4) == "UNC/"@ {
        8 + share_len(path.skip(8), '\\')
    } else if has_drive(rest) && (rest.len() == 2 || is_separator(rest[2])) {
        6
    } else {
        4 + until(rest, '\\')
    };
    PathHead { len, verbatim: true, rooted: false }
}

/// The prefix of a path, if it has one.
pub open spec fn head(path: Seq<char>) -> Option<PathHead> {
    let p = slashed(path);
    if path.len() >= 2 && p[0] == '/' && p[1] == '/' {
        if path.len() >= 4 && path.take(4) == seq!['\\', '\\', '?', '\\'] {
            Some(verbatim_head(path))
        } else if path.len() >= 4 && p[2] == '.' && p[3] == '/' {
            Some(PathHead { len: 4 + until(p.skip(4), '/'), verbatim: false, rooted: true })
        } else {
            let server = until(p.skip(2), '/');
            let both = share_len(p.skip(2), '/');
            if server > 0 && both > server {
                Some(PathHead { len: 2 + both, verbatim: false, rooted: true })
            } else {
                None
            }
        }
    } else if has_drive(path) {
        Some(PathHead { len: 2, verbatim: false, rooted: false })
    } else {
        None
    }
}

/// What stands between the separators of what follows the prefix of a path.
pub open spec fn pieces(tail: Seq<char>, verbatim: bool) -> Seq<Seq<char>> {
    if verbatim {
        split(tail, '\\')
    } else {
        components(tail)
    }
}

/// The component that a piece of a path is. An empty piece is none, and neither is `.` unless
/// the path is verbatim.
pub open spec fn piece_part(piece: Seq<char>, verbatim: bool) -> Option<PathPart> {
    if piece.len() == 0 {
        None
    } else if piece == "."@ {
        if verbatim {
            Some(PathPart::CurDir)
        } else {
            None
        }
    } else if piece == ".."@ {
        Some(PathPart::ParentDir)
    } else {
        Some(PathPart::Normal)
    }
}

/// The components that the pieces of a path are.
pub open spec fn piece_parts(pieces: Seq<Seq<char>>, verbatim: bool) -> Seq<PathPart>
    decreases pieces.len(),
{
    if pieces.len() == 0 {
        Seq::empty()
    } else {
        let before = piece_parts(pieces.drop_last(), verbatim);
        match piece_part(pieces.last(), verbatim) {
            Some(part) => before.push(part),
            None => before,
        }
    }
}

/// Whether a path starts with a separator once its prefix is taken away.
pub open spec fn at_root(tail: Seq<char>) -> bool {
    tail.len() > 0 && is_separator(tail[0])
}

/// What stands between the prefix of a path and its names: the root, or `.` at the start of a
/// path without a prefix.
pub open spec fn start_parts(head: Option<PathHead>, tail: Seq<char>) -> Seq<PathPart> {
    if at_root(tail) {
        seq![PathPart::RootDir]
    } else {
        match head {
            Some(head) => if head.rooted {
                seq![PathPart::RootDir]
            } else {
                Seq::empty()
            },
            None => if components(tail)[0] == "."@ {
                seq![PathPart::CurDir]
            } else {
                Seq::empty()
            },
        }
    }
}

/// The components of what follows the prefix of a path.
pub open spec fn tail_parts(head: Option<PathHead>, tail: Seq<char>) -> Seq<PathPart> {
    let verbatim = head matches Some(head) && head.verbatim;
    let names = if at_root(tail) {
        tail.skip(1)
    } else {
        tail
    };
    start_parts(head, tail) + piece_parts(pieces(names, verbatim), verbatim)
}

/// The components of a path.
pub open spec fn path_parts(path: Seq<char>) -> Seq<PathPart> {
    match head(path) {
        Some(head) => seq![PathPart::Prefix] + tail_parts(Some(head), path.skip(head.len)),
        None => tail_parts(None, path),
    }
}

/// The pieces of a path without a verbatim prefix are names or parents; one is a parent exactly
/// where a piece is `..`.
pub proof fn pieces_are_names_or_parents(pieces: Seq<Seq<char>>)
    ensures
        piece_parts(pieces, false).contains(PathPart::ParentDir) <==> pieces.contains(".."@),
        forall|k: int|
            0 <= k < piece_parts(pieces, false).len() ==> #[trigger] piece_parts(pieces, false)[k]
                == PathPart::Normal || piece_parts(pieces, false)[k] == PathPart::ParentDir,
    decreases pieces.len(),
{
    reveal_strlit(".");
    reveal_strlit("..");
    if pieces.len() > 0 {
        let front = pieces.drop_last();
        let before = piece_parts(front, false);
        let all = piece_parts(pieces, false);
        pieces_are_names_or_parents(front);
        assert(pieces == front.push(pieces.last()));
        if front.contains(".."@) {
            let i = choose|i: int| 0 <= i < front.len() && front[i] == ".."@;
            assert(pieces[i] == ".."@);
            let k = choose|k: int| 0 <= k < before.len() && before[k] == PathPart::ParentDir;
            assert(all[k] == PathPart::ParentDir);
        } else if pieces.last() == ".."@ {
            assert(all[before.len() as int] == PathPart::ParentDir);
            assert(pieces[front.len() as int] == ".."@);
        } else {
            assert forall|i: int| 0 <= i < pieces.len() implies pieces[i] != ".."@ by {
                if i < front.len() {
                    assert(front.contains(front[i]));
                }
            }
            assert forall|k: int| 0 <= k < all.len() implies all[k] != PathPart::ParentDir by {
                if k < before.len() {
                    assert(before.contains(before[k]));
                }
            }
        }
    }
}

/// The prefix of a path as it was found.
struct FoundHead {
    len: usize,
    verbatim: bool,
    rooted: bool,
}

impl View for FoundHead {
    type V = PathHead;

    closed spec fn view(&self) -> PathHead {
        PathHead { len: self.len as int, verbatim: self.verbatim, rooted: self.rooted }
    }
}

fn share_end(chars: &Vec<char>, from: usize, separator: char) -> (end: usize)
    requires
        from <= chars@.len(),
    ensures
        end == from + share_len(chars@.skip(from as int), separator),
        from <= end <= chars@.len(),
{
    let server = find_char(chars, from, separator);
    if server < chars.len() {
        assert(chars@.skip(from as int).skip(server - from + 1) =~= chars@.skip(server + 1));
        let share = find_char(chars, server + 1, separator);
        if share > server + 1 {
            share
        } else {
            server
        }
    } else {
        server
    }
}

fn drive_at(chars: &Vec<char>, from: usize) -> (drive: bool)
    requires
        from <= chars@.len(),
    ensures
        drive == has_drive(chars@.skip(from as int)),
{
    if chars.len() - from < 2 {
        return false;
    }
    let letter = chars[from];
    chars[from + 1] == ':' && (('a' <= letter && letter <= 'z') || ('A' <= letter && letter
        <= 'Z'))
}

fn separates(c: char) -> (result: bool)
    ensures
        result == is_separator(c),
{
    c == '/' || c == '\\'
}

fn find_verbatim_head(chars: &Vec<char>) -> (found: FoundHead)
    requires
        chars@.len() >= 4,
    ensures
        found@ == verbatim_head(chars@),
        found.len <= chars@.len(),
{
    let n: usize = chars.len();
    let ghost rest = chars@.skip(4);
    proof {
        reveal_strlit("UNC/");
    }
    let share = n >= 8 && chars[4] == 'U' && chars[5] == 'N' && chars[6] == 'C' && separates(
        chars[7],
    );
    proof {
        if rest.len() >= 4 {
            let flat = slashed(rest).take(4);
            assert(flat[0] == slashed(rest)[0] && flat[1] == slashed(rest)[1] && flat[2]
                == slashed(rest)[2] && flat[3] == slashed(rest)[3]);
            if share {
                assert(flat =~= "UNC/"@);
            }
        }
    }
    let len: usize = if share {
        share_end(chars, 8, '\\')
    } else if drive_at(chars, 4) && (n == 6 || separates(chars[6])) {
        6
    } else {
        find_char(chars, 4, '\\')
    };
    FoundHead { len, verbatim: true, rooted: false }
}

fn find_head(chars: &Vec<char>, flat: &Vec<char>) -> (found: Option<FoundHead>)
    requires
        flat@ == slashed(chars@),
    ensures
        match (found, head(chars@)) {
            (Some(found), Some(expected)) => found@ == expected && found.len <= chars@.len(),
            (None, None) => true,
            _ => false,
        },
{
    let n: usize = chars.len();
    assert(flat@.len() == n);
    if n >= 2 && flat[0] == '/' && flat[1] == '/' {
        let verbatim = n >= 4 && chars[0] == '\\' && chars[1] == '\\' && chars[2] == '?'
            && chars[3] == '\\';
        proof {
            if n >= 4 {
                let start = chars@.take(4);
                assert(start[0] == chars@[0] && start[1] == chars@[1] && start[2] == chars@[2]
                    && start[3] == chars@[3]);
                if verbatim {
                    assert(start =~= seq!['\\', '\\', '?', '\\']);
                }
            }
        }
        if verbatim {
            return Some(find_verbatim_head(chars));
        }
        if n >= 4 && flat[2] == '.' && flat[3] == '/' {
            return Some(
                FoundHead { len: find_char(flat, 4, '/'), verbatim: false, rooted: true },
            );
        }
        let server = find_char(flat, 2, '/');
        let both = share_end(flat, 2, '/');
        if server > 2 && both > server {
            return Some(FoundHead { len: both, verbatim: false, rooted: true });
        }
        return None;
    }
    assert(chars@.skip(0) =~= chars@);
    if drive_at(chars, 0) {
        return Some(FoundHead { len: 2, verbatim: false, rooted: false });
    }
    None
}

fn push_piece_parts(parts: &mut Vec<PathPart>, pieces: &Vec<&str>, verbatim: bool)
    ensures
        final(parts)@ == old(parts)@ + piece_parts(views(pieces@), verbatim),
{
    let ghost before = parts@;
    let ghost all = views(pieces@);
    let mut i: usize = 0;
    assert(all.take(0) =~= Seq::<Seq<char>>::empty());
    while i < pieces.len()
        invariant
            i <= pieces@.len(),
            all == views(pieces@),
            parts@ == before + piece_parts(all.take(i as int), verbatim),
        decreases pieces@.len() - i,
    {
        let piece = pieces[i];
        proof {
            assert(all[i as int] == piece@);
            assert(all.take(i + 1).drop_last() =~= all.take(i as int));
            assert(all.take(i + 1).last() == piece@);
            reveal_strlit(".");
            reveal_strlit("..");
        }
        if piece.is_empty() {
        } else if same(piece, ".") {
            if verbatim {
                parts.push(PathPart::CurDir);
            }
        } else if same(piece, "..") {
            parts.push(PathPart::ParentDir);
        } else {
            parts.push(PathPart::Normal);
        }
        i = i + 1;
    }
    assert(all.take(i as int) =~= all);
}

fn starts_here(tail: &str) -> (here: bool)
    ensures
        here == (components(tail@)[0] == "."@),
{
    let flat = slashed_of(tail);
    let pieces = split_on(flat.as_str(), '/');
    assert(components(tail@)[0] == pieces@[0]@);
    same(pieces[0], ".")
}

/// The components of a path, as Windows takes paths apart: a prefix, the root, and the names
/// between the separators.
pub fn parts_of(path: &str) -> (parts: Vec<PathPart>)
    ensures
        parts@ == path_parts(path@),
{
    let chars = chars_of(path);
    let flat = chars_of(slashed_of(path).as_str());
    let n: usize = chars.len();
    let mut parts: Vec<PathPart> = Vec::new();
    let found = find_head(&chars, &flat);
    let mut from: usize = 0;
    let mut verbatim = false;
    let mut rooted = false;
    let prefixed = match found {
        Some(found) => {
            from = found.len;
            verbatim = found.verbatim;
            rooted = found.rooted;
            parts.push(PathPart::Prefix);
            true
        },
        None => false,
    };
    let ghost tail = path@.skip(from as int);
    let ghost start = parts@;
    assert(path@.skip(0) =~= path@);
    let root = from < n && separates(chars[from]);
    assert(root == at_root(tail));
    if root || rooted {
        parts.push(PathPart::RootDir);
    } else if !prefixed && starts_here(path) {
        parts.push(PathPart::CurDir);
    }
    assert(parts@ =~= start + start_parts(head(path@), tail));
    let names = path.substring_char(
        if root {
            from + 1
        } else {
            from
        },
        n,
    );
    assert(names@ =~= if root {
        tail.skip(1)
    } else {
        tail
    });
    if verbatim {
        push_piece_parts(&mut parts, &split_on(names, '\\'), true);
    } else {
        let flat_names = slashed_of(names);
        push_piece_parts(&mut parts, &split_on(flat_names.as_str(), '/'), false);
    }
    assert(parts@ =~= start + tail_parts(head(path@), tail));
    parts
}

/// A path is written with `/` wherever either separator stands, and all else stays.
pub proof fn separators_become_slashes(path: Seq<char>, i: int)
    requires
        0 <= i < path.len(),
    ensures
        slashed(path).len() == path.len(),
        is_separator(path[i]) <==> slashed(path)[i] == '/',
        !is_separator(path[i]) ==> slashed(path)[i] == path[i],
        slashed(path)[i] != '\\',
        is_separator('/') && is_separator('\\'),
{
}

} // verus!
