//! Paths as texts, read as Windows reads them or as the other platforms do, and the
//! files that lie beside the configuration.

use vstd::prelude::*;

use crate::text::append;
use crate::text::concat;
use crate::text::from_chars;
use crate::text::joined;
use crate::text::same_text;
use crate::text::texts;
use crate::text::to_chars;

verus! {

/// Whether a character parts the components of a path: a slash, and on Windows a
/// backslash too.
pub open spec fn is_separator(c: char, windows: bool) -> bool {
    c == '/' || (windows && c == '\\')
}

/// Whether a path is one that Windows takes word for word: in it only a backslash
/// parts the components, and a single dot is a name.
pub open spec fn is_verbatim(path: Seq<char>, windows: bool) -> bool {
    windows && path.len() >= 4 && path[0] == '\\' && path[1] == '\\' && path[2] == '?' && path[3]
        == '\\'
}

/// Whether a character parts the components of a path that may be taken word for
/// word.
pub open spec fn parts(c: char, windows: bool, verbatim: bool) -> bool {
    is_separator(c, windows) && !(verbatim && c == '/')
}

/// Where the component that starts at an index ends.
pub open spec fn component_end(path: Seq<char>, from: int, windows: bool, verbatim: bool) -> int
    decreases path.len() - from,
{
    if from < 0 || from >= path.len() {
        path.len() as int
    } else if parts(path[from], windows, verbatim) {
        from
    } else {
        component_end(path, from + 1, windows, verbatim)
    }
}

/// Whether a drive such as `C:` stands at an index.
pub open spec fn is_drive(path: Seq<char>, at: int) -> bool {
    at + 1 < path.len() && (('a' <= path[at] && path[at] <= 'z') || ('A' <= path[at] && path[at]
        <= 'Z')) && path[at + 1] == ':'
}

/// Where a server's name and the name of its share end: both from an index on. The
/// share may be missing.
pub open spec fn share_end(path: Seq<char>, from: int, verbatim: bool) -> int {
    let server = component_end(path, from, true, verbatim);
    let share = component_end(path, server + 1, true, verbatim);
    if server < path.len() && share > server + 1 {
        share
    } else {
        server
    }
}

/// How long the part of a Windows path is that says where the path is rooted: a
/// drive, a device, or a server and its share. Elsewhere there is none.
pub open spec fn prefix_len(path: Seq<char>, windows: bool) -> int {
    let n = path.len();
    if !windows {
        0
    } else if n >= 2 && is_separator(path[0], true) && is_separator(path[1], true) {
        if is_verbatim(path, true) {
            if n >= 8 && path[4] == 'U' && path[5] == 'N' && path[6] == 'C' && is_separator(
                path[7],
                true,
            ) {
                share_end(path, 8, true)
            } else if is_drive(path, 4) && (n == 6 || is_separator(path[6], true)) {
                6
            } else {
                component_end(path, 4, true, true)
            }
        } else if n >= 4 && path[2] == '.' && is_separator(path[3], true) {
            component_end(path, 4, true, false)
        } else {
            let server = component_end(path, 2, true, false);
            if server > 2 && share_end(path, 2, false) > server {
                share_end(path, 2, false)
            } else {
                0
            }
        }
    } else if is_drive(path, 0) {
        2
    } else {
        0
    }
}

/// Whether a separator follows the prefix.
pub open spec fn is_rooted(path: Seq<char>, windows: bool) -> bool {
    let k = prefix_len(path, windows);
    k < path.len() && is_separator(path[k], windows)
}

/// How long the prefix and the separator behind it are.
pub open spec fn head_len(path: Seq<char>, windows: bool) -> int {
    prefix_len(path, windows) + if is_rooted(path, windows) {
        1int
    } else {
        0
    }
}

/// How a path is to be read: where its components start, and what parts them.
#[derive(Clone, Copy, PartialEq, Eq, Structural, Debug)]
pub struct PathShape {
    pub prefix: usize,
    pub rooted: bool,
    pub windows: bool,
    pub verbatim: bool,
}

impl PathShape {
    /// Where the components start.
    pub open spec fn head(self) -> int {
        self.prefix + if self.rooted {
            1int
        } else {
            0
        }
    }

    /// Whether a character parts the components.
    pub open spec fn splits(self, c: char) -> bool {
        parts(c, self.windows, self.verbatim)
    }
}

/// How a path is to be read.
pub open spec fn shape_of(path: Seq<char>, windows: bool) -> PathShape {
    PathShape {
        prefix: prefix_len(path, windows) as usize,
        rooted: is_rooted(path, windows),
        windows,
        verbatim: is_verbatim(path, windows),
    }
}

/// A path without trailing separators and trailing components that are a single
/// dot. The head stays whole.
pub open spec fn without_tail(path: Seq<char>, shape: PathShape) -> Seq<char>
    decreases path.len(),
{
    let n = path.len();
    if n <= shape.head() {
        path
    } else if shape.splits(path[n - 1]) {
        without_tail(path.drop_last(), shape)
    } else if !shape.verbatim && path[n - 1] == '.' && (if n - 1 > shape.head() {
        shape.splits(path[n - 2])
    } else {
        shape.rooted
    }) {
        without_tail(path.drop_last(), shape)
    } else {
        path
    }
}

/// Where the last component starts: after the last separator, or after the head.
pub open spec fn last_start(path: Seq<char>, shape: PathShape) -> int
    decreases path.len(),
{
    if path.len() <= shape.head() {
        shape.head()
    } else if shape.splits(path.last()) {
        path.len() as int
    } else {
        last_start(path.drop_last(), shape)
    }
}

/// The directory that holds a path: none for the empty path and a mere head, and
/// the head for a single component.
pub open spec fn parent_of(path: Seq<char>, windows: bool) -> Option<Seq<char>> {
    let shape = shape_of(path, windows);
    let p = without_tail(path, shape);
    let start = last_start(p, shape);
    if p.len() <= shape.head() {
        None
    } else {
        Some(without_tail(p.take(start), shape))
    }
}

/// The last component, if it names something: not the head, not a dot or two.
pub open spec fn name_of(path: Seq<char>, windows: bool) -> Option<Seq<char>> {
    let shape = shape_of(path, windows);
    let p = without_tail(path, shape);
    let name = p.skip(last_start(p, shape));
    if name.len() == 0 || name == "."@ || name == ".."@ {
        None
    } else {
        Some(name)
    }
}

/// The components of a path from an index on, without empty ones.
pub open spec fn pieces(path: Seq<char>, from: int, verbatim: bool) -> Seq<Seq<char>>
    decreases path.len() + 1 - from,
{
    if from < 0 || from >= path.len() {
        Seq::empty()
    } else {
        let end = component_end(path, from, true, verbatim);
        proof {
            lemma_component_end(path, from, true, verbatim);
        }
        if end == from {
            pieces(path, end + 1, verbatim)
        } else {
            seq![path.subrange(from, end)] + pieces(path, end + 1, verbatim)
        }
    }
}

/// Where a component leads: a dot stays, two dots go up from a name, and a name goes
/// down.
pub open spec fn stepped(held: Seq<Seq<char>>, piece: Seq<char>) -> Seq<Seq<char>> {
    if piece == "."@ {
        held
    } else if piece == ".."@ {
        if held.len() > 0 && held.last() != "."@ && held.last() != ".."@ {
            held.drop_last()
        } else {
            held
        }
    } else {
        held.push(piece)
    }
}

/// Where the first components lead, one after the other.
pub open spec fn walked(held: Seq<Seq<char>>, steps: Seq<Seq<char>>, n: int) -> Seq<Seq<char>>
    decreases n,
{
    if n <= 0 {
        held
    } else {
        stepped(walked(held, steps, n - 1), steps[n - 1])
    }
}

/// The components below a path that is taken word for word.
pub open spec fn verbatim_steps(dir: Seq<char>, path: Seq<char>) -> Seq<Seq<char>> {
    let held = if is_rooted(path, true) {
        Seq::empty()
    } else {
        pieces(dir, head_len(dir, true), true)
    };
    let steps = pieces(path, 0, false);
    walked(held, steps, steps.len() as int)
}

/// A path below a directory that is taken word for word.
pub open spec fn verbatim_below(dir: Seq<char>, path: Seq<char>) -> Seq<char> {
    let prefix = dir.take(prefix_len(dir, true));
    let steps = verbatim_steps(dir, path);
    if steps.len() == 0 && !is_rooted(dir, true) && !is_rooted(path, true) {
        prefix
    } else {
        prefix.push('\\') + joined(steps, "\\"@)
    }
}

/// Whether a separator goes between a directory and a path below it: not behind
/// another one, and not behind a mere drive.
pub open spec fn needs_separator(dir: Seq<char>, windows: bool) -> bool {
    &&& dir.len() > 0
    &&& !is_separator(dir.last(), windows)
    &&& !(windows && dir.len() == 2 && is_drive(dir, 0))
}

/// A path below a directory. A path with a prefix of its own, or elsewhere than on
/// Windows one that starts at the root, stands for itself; on Windows one that starts
/// at the root stays on the directory's drive.
pub open spec fn below(dir: Seq<char>, path: Seq<char>, windows: bool) -> Seq<char> {
    if prefix_len(path, windows) > 0 {
        path
    } else if is_verbatim(dir, windows) && path.len() > 0 {
        verbatim_below(dir, path)
    } else if is_rooted(path, windows) {
        dir.take(prefix_len(dir, windows)) + path
    } else if needs_separator(dir, windows) {
        dir.push(if windows {
            '\\'
        } else {
            '/'
        }) + path
    } else {
        dir + path
    }
}

/// A component that starts within a path ends there.
pub proof fn lemma_component_end(path: Seq<char>, from: int, windows: bool, verbatim: bool)
    requires
        0 <= from,
    ensures
        component_end(path, from, windows, verbatim) <= path.len(),
        from <= path.len() ==> from <= component_end(path, from, windows, verbatim),
    decreases path.len() - from,
{
    if from < path.len() && !parts(path[from], windows, verbatim) {
        lemma_component_end(path, from + 1, windows, verbatim);
    }
}

fn is_separator_char(c: char, windows: bool) -> (b: bool)
    ensures
        b == is_separator(c, windows),
{
    c == '/' || (windows && c == '\\')
}

fn parts_char(c: char, windows: bool, verbatim: bool) -> (b: bool)
    ensures
        b == parts(c, windows, verbatim),
{
    is_separator_char(c, windows) && !(verbatim && c == '/')
}

fn find_component_end(v: &Vec<char>, from: usize, verbatim: bool) -> (end: usize)
    ensures
        end == component_end(v@, from as int, true, verbatim),
        end <= v@.len(),
        from <= v@.len() ==> from <= end,
{
    if from >= v.len() {
        return v.len();
    }
    let mut i: usize = from;
    while i < v.len() && !parts_char(v[i], true, verbatim)
        invariant
            from <= i <= v.len(),
            component_end(v@, from as int, true, verbatim) == component_end(
                v@,
                i as int,
                true,
                verbatim,
            ),
        decreases v.len() - i,
    {
        i += 1;
    }
    i
}

fn has_drive(v: &Vec<char>, at: usize) -> (b: bool)
    requires
        at < usize::MAX,
    ensures
        b == is_drive(v@, at as int),
{
    at < v.len() && v.len() - at > 1 && (('a' <= v[at] && v[at] <= 'z') || ('A' <= v[at] && v[at]
        <= 'Z')) && v[at + 1] == ':'
}

fn find_share_end(v: &Vec<char>, from: usize, verbatim: bool) -> (end: usize)
    requires
        from <= v@.len(),
    ensures
        end == share_end(v@, from as int, verbatim),
        end <= v@.len(),
{
    let server: usize = find_component_end(v, from, verbatim);
    if server >= v.len() {
        return server;
    }
    let share: usize = find_component_end(v, server + 1, verbatim);
    if share > server + 1 {
        share
    } else {
        server
    }
}

fn has_verbatim(v: &Vec<char>, windows: bool) -> (b: bool)
    ensures
        b == is_verbatim(v@, windows),
{
    windows && v.len() >= 4 && v[0] == '\\' && v[1] == '\\' && v[2] == '?' && v[3] == '\\'
}

fn find_prefix(v: &Vec<char>, windows: bool) -> (k: usize)
    ensures
        k == prefix_len(v@, windows),
        k <= v@.len(),
{
    let n: usize = v.len();
    if !windows {
        return 0;
    }
    if n >= 2 && is_separator_char(v[0], true) && is_separator_char(v[1], true) {
        if has_verbatim(v, true) {
            if n >= 8 && v[4] == 'U' && v[5] == 'N' && v[6] == 'C' && is_separator_char(v[7], true) {
                return find_share_end(v, 8, true);
            }
            if has_drive(v, 4) && (n == 6 || is_separator_char(v[6], true)) {
                return 6;
            }
            return find_component_end(v, 4, true);
        }
        if n >= 4 && v[2] == '.' && is_separator_char(v[3], true) {
            return find_component_end(v, 4, false);
        }
        let server: usize = find_component_end(v, 2, false);
        let share: usize = find_share_end(v, 2, false);
        if server > 2 && share > server {
            return share;
        }
        return 0;
    }
    if has_drive(v, 0) {
        2
    } else {
        0
    }
}

fn find_shape(v: &Vec<char>, windows: bool) -> (shape: PathShape)
    ensures
        shape == shape_of(v@, windows),
        shape.prefix == prefix_len(v@, windows),
        shape.head() == head_len(v@, windows),
        shape.head() <= v@.len(),
{
    let prefix: usize = find_prefix(v, windows);
    let rooted: bool = prefix < v.len() && is_separator_char(v[prefix], windows);
    PathShape { prefix, rooted, windows, verbatim: has_verbatim(v, windows) }
}

fn strip_tail(v: &mut Vec<char>, shape: PathShape)
    requires
        shape.head() <= old(v)@.len(),
    ensures
        final(v)@ == without_tail(old(v)@, shape),
        shape.head() <= final(v)@.len() <= old(v)@.len(),
{
    assert(shape.head() <= v.len());
    let head: usize = if shape.rooted {
        shape.prefix + 1
    } else {
        shape.prefix
    };
    loop
        invariant
            head == shape.head(),
            head <= v@.len() <= old(v)@.len(),
            without_tail(v@, shape) == without_tail(old(v)@, shape),
        ensures
            v@ == without_tail(old(v)@, shape),
            head <= v@.len() <= old(v)@.len(),
        decreases v.len(),
    {
        let n: usize = v.len();
        if n <= head {
            break;
        }
        let last: char = v[n - 1];
        let drops: bool = if parts_char(last, shape.windows, shape.verbatim) {
            true
        } else if shape.verbatim || last != '.' {
            false
        } else if n - 1 > head {
            parts_char(v[n - 2], shape.windows, shape.verbatim)
        } else {
            shape.rooted
        };
        if !drops {
            break;
        }
        let ghost before = v@;
        let _ = v.pop();
        assert(v@ == before.drop_last());
    }
}

fn find_last_start(v: &Vec<char>, shape: PathShape) -> (start: usize)
    requires
        shape.head() <= v@.len(),
    ensures
        start == last_start(v@, shape),
        shape.head() <= start <= v@.len(),
{
    assert(shape.head() <= v.len());
    let head: usize = if shape.rooted {
        shape.prefix + 1
    } else {
        shape.prefix
    };
    let mut n: usize = v.len();
    assert(v@.take(n as int) == v@);
    while n > head && !parts_char(v[n - 1], shape.windows, shape.verbatim)
        invariant
            head == shape.head(),
            head <= n <= v.len(),
            last_start(v@, shape) == last_start(v@.take(n as int), shape),
        decreases n,
    {
        assert(v@.take(n as int).drop_last() == v@.take(n - 1));
        n -= 1;
    }
    n
}

/// The directory that holds a path.
pub fn parent(path: &str, windows: bool) -> (r: Option<String>)
    ensures
        match r {
            Some(p) => parent_of(path@, windows) == Some(p@),
            None => parent_of(path@, windows) is None,
        },
{
    let mut v: Vec<char> = to_chars(path);
    let shape: PathShape = find_shape(&v, windows);
    strip_tail(&mut v, shape);
    let n: usize = v.len();
    if n <= shape.prefix || (shape.rooted && n - 1 <= shape.prefix) {
        return None;
    }
    let start: usize = find_last_start(&v, shape);
    let ghost p = v@;
    v.truncate(start);
    assert(v@ =~= p.take(start as int));
    strip_tail(&mut v, shape);
    Some(from_chars(&v))
}

/// The last component of a path, if it names something.
pub fn file_name(path: &str, windows: bool) -> (r: Option<String>)
    ensures
        match r {
            Some(name) => name_of(path@, windows) == Some(name@),
            None => name_of(path@, windows) is None,
        },
{
    let mut v: Vec<char> = to_chars(path);
    let shape: PathShape = find_shape(&v, windows);
    strip_tail(&mut v, shape);
    let start: usize = find_last_start(&v, shape);
    let ghost p = v@;
    let tail: Vec<char> = v.split_off(start);
    assert(tail@ =~= p.skip(start as int));
    let name = from_chars(&tail);
    if tail.len() == 0 || same_text(&name, ".") || same_text(&name, "..") {
        return None;
    }
    Some(name)
}

/// A path below a directory.
pub fn join(dir: &str, path: &str, windows: bool) -> (r: String)
    ensures
        r@ == below(dir@, path@, windows),
{
    let d: Vec<char> = to_chars(dir);
    let p: Vec<char> = to_chars(path);
    let own: PathShape = find_shape(&p, windows);
    if own.prefix > 0 {
        return path.to_owned();
    }
    let shape: PathShape = find_shape(&d, windows);
    if shape.verbatim && p.len() > 0 {
        return join_verbatim(&d, shape, &p, own.rooted);
    }
    if own.rooted {
        let mut head: Vec<char> = d;
        let ghost whole = head@;
        head.truncate(shape.prefix);
        assert(head@ =~= whole.take(shape.prefix as int));
        let mut r = from_chars(&head);
        append(&mut r, path);
        return r;
    }
    let n: usize = d.len();
    let mut r = dir.to_owned();
    if n > 0 && !is_separator_char(d[n - 1], windows) && !(windows && n == 2 && has_drive(&d, 0)) {
        r.push(
            if windows {
                '\\'
            } else {
                '/'
            },
        );
    }
    append(&mut r, path);
    r
}

fn find_pieces(v: &Vec<char>, from: usize, verbatim: bool) -> (found: Vec<String>)
    requires
        from <= v@.len(),
    ensures
        texts(found@) == pieces(v@, from as int, verbatim),
{
    let mut found: Vec<String> = Vec::new();
    let mut i: usize = from;
    assert(texts(found@) + pieces(v@, i as int, verbatim) =~= pieces(v@, from as int, verbatim));
    while i < v.len()
        invariant
            from <= i <= v.len(),
            texts(found@) + pieces(v@, i as int, verbatim) == pieces(v@, from as int, verbatim),
        decreases v.len() - i,
    {
        let end: usize = find_component_end(v, i, verbatim);
        let ghost earlier = found@;
        let ghost rest = pieces(v@, end + 1, verbatim);
        if end > i {
            let piece = slice_text(v, i, end);
            found.push(piece);
            assert(texts(found@) =~= texts(earlier).push(piece@));
            assert(texts(found@) + rest =~= texts(earlier) + (seq![piece@] + rest));
        }
        if end < v.len() {
            i = end + 1;
        } else {
            i = end;
            assert(rest =~= pieces(v@, i as int, verbatim));
        }
    }
    assert(texts(found@) + pieces(v@, i as int, verbatim) =~= texts(found@));
    found
}

fn slice_text(v: &Vec<char>, from: usize, to: usize) -> (s: String)
    requires
        from <= to <= v@.len(),
    ensures
        s@ == v@.subrange(from as int, to as int),
{
    let mut chars: Vec<char> = Vec::new();
    let mut i: usize = from;
    while i < to
        invariant
            from <= i <= to <= v@.len(),
            chars@ == v@.subrange(from as int, i as int),
        decreases to - i,
    {
        chars.push(v[i]);
        i += 1;
        assert(chars@ =~= v@.subrange(from as int, i as int));
    }
    from_chars(&chars)
}

fn take_step(held: &mut Vec<String>, piece: &String)
    ensures
        texts(final(held)@) == stepped(texts(old(held)@), piece@),
{
    let ghost before = held@;
    let n: usize = held.len();
    if same_text(piece, ".") {
        return ;
    }
    if same_text(piece, "..") {
        if n > 0 && !same_text(&held[n - 1], ".") && !same_text(&held[n - 1], "..") {
            let _ = held.pop();
            assert(texts(held@) =~= texts(before).drop_last());
        }
        return ;
    }
    held.push(piece.clone());
    assert(texts(held@) =~= texts(before).push(piece@));
}

fn join_verbatim(d: &Vec<char>, shape: PathShape, p: &Vec<char>, rooted: bool) -> (r: String)
    requires
        shape == shape_of(d@, true),
        shape.prefix == prefix_len(d@, true),
        shape.head() == head_len(d@, true) <= d@.len(),
        rooted == is_rooted(p@, true),
    ensures
        r@ == verbatim_below(d@, p@),
{
    assert(shape.head() <= d.len());
    let head: usize = if shape.rooted {
        shape.prefix + 1
    } else {
        shape.prefix
    };
    let mut held: Vec<String> = if rooted {
        Vec::new()
    } else {
        find_pieces(d, head, true)
    };
    let ghost start = texts(held@);
    assert(rooted ==> start =~= Seq::<Seq<char>>::empty());
    let steps: Vec<String> = find_pieces(p, 0, false);
    let mut i: usize = 0;
    while i < steps.len()
        invariant
            i <= steps.len(),
            texts(held@) == walked(start, texts(steps@), i as int),
        decreases steps.len() - i,
    {
        take_step(&mut held, &steps[i]);
        i += 1;
        assert(texts(steps@)[i - 1] == steps@[i - 1]@);
    }
    let mut r = slice_text(d, 0, shape.prefix);
    assert(d@.subrange(0, shape.prefix as int) =~= d@.take(shape.prefix as int));
    assert(texts(held@).len() == held@.len());
    if held.len() > 0 || shape.rooted || rooted {
        r.push('\\');
        append(&mut r, &crate::text::join(&held, "\\"));
    }
    r
}

/// A file beside another one; beside a path without a directory it has the
/// given fallback as its directory.
pub open spec fn beside(
    path: Seq<char>,
    fallback: Seq<char>,
    name: Seq<char>,
    windows: bool,
) -> Seq<char> {
    match parent_of(path, windows) {
        Some(dir) => below(dir, name, windows),
        None => below(fallback, name, windows),
    }
}

fn sibling(path: &str, fallback: &str, name: &str, windows: bool) -> (r: String)
    ensures
        r@ == beside(path@, fallback@, name@, windows),
{
    match parent(path, windows) {
        Some(dir) => join(&dir, name, windows),
        None => join(fallback, name, windows),
    }
}

/// The encrypted clipboard history.
pub fn archive_path(config_path: &str, windows: bool) -> (path: String)
    ensures
        path@ == beside(config_path@, ""@, "clipboard-history.enc"@, windows),
{
    sibling(config_path, "", "clipboard-history.enc", windows)
}

/// The queue of outgoing transfers.
pub fn queue_directory(config_path: &str, windows: bool) -> (path: String)
    ensures
        path@ == beside(config_path@, "."@, "file-transfer-queue"@, windows),
{
    sibling(config_path, ".", "file-transfer-queue", windows)
}

/// This device's identity.
pub fn identity_path_for(config_path: &str, windows: bool) -> (path: String)
    ensures
        path@ == beside(config_path@, "."@, "identity.json"@, windows),
{
    sibling(config_path, ".", "identity.json", windows)
}

/// The trusted devices.
pub fn trust_path(config_path: &str, windows: bool) -> (path: String)
    ensures
        path@ == beside(config_path@, "."@, "trust.json"@, windows),
{
    sibling(config_path, ".", "trust.json", windows)
}

/// The log of the daemon that the control panel starts.
pub fn daemon_log_path(config_path: &str, windows: bool) -> (path: String)
    ensures
        path@ == (match parent_of(config_path@, windows) {
            Some(dir) => below(dir, "daemon.log"@, windows),
            None => "nexkvm-daemon.log"@,
        }),
{
    match parent(config_path, windows) {
        Some(dir) => join(&dir, "daemon.log", windows),
        None => "nexkvm-daemon.log".to_owned(),
    }
}

/// A name up to its last dot, unless that is its first character.
pub open spec fn stem_of(name: Seq<char>) -> Seq<char> {
    let k = last_dot(name);
    if k > 0 {
        name.take(k)
    } else {
        name
    }
}

/// Where the last dot of a name is, or zero.
pub open spec fn last_dot(name: Seq<char>) -> int
    decreases name.len(),
{
    if name.len() == 0 {
        0
    } else if name.last() == '.' {
        name.len() - 1
    } else {
        last_dot(name.drop_last())
    }
}

fn stem(name: &str) -> (r: String)
    ensures
        r@ == stem_of(name@),
{
    let mut v: Vec<char> = to_chars(name);
    let mut n: usize = v.len();
    assert(v@.take(n as int) == v@);
    while n > 0 && v[n - 1] != '.'
        invariant
            n <= v.len(),
            v@ == name@,
            last_dot(name@) == last_dot(name@.take(n as int)),
        decreases n,
    {
        assert(v@.take(n as int).drop_last() == v@.take(n - 1));
        n -= 1;
    }
    if n > 1 {
        v.truncate(n - 1);
        assert(v@ =~= name@.take(n - 1));
    }
    from_chars(&v)
}

/// Where a full daemon log is moved: its path without its extension, with a new one.
pub open spec fn previous_log(path: Seq<char>, windows: bool) -> Seq<char> {
    let shape = shape_of(path, windows);
    let p = without_tail(path, shape);
    match name_of(path, windows) {
        None => path,
        Some(name) => p.take(last_start(p, shape)) + stem_of(name) + ".log.previous"@,
    }
}

/// Where a full daemon log is moved.
pub fn previous_daemon_log_path(path: &str, windows: bool) -> (r: String)
    ensures
        r@ == previous_log(path@, windows),
{
    match file_name(path, windows) {
        None => path.to_owned(),
        Some(name) => {
            let mut v: Vec<char> = to_chars(path);
            let shape: PathShape = find_shape(&v, windows);
            strip_tail(&mut v, shape);
            let start: usize = find_last_start(&v, shape);
            let mut r = slice_text(&v, 0, start);
            assert(v@.subrange(0, start as int) =~= v@.take(start as int));
            append(&mut r, &stem(&name));
            append(&mut r, ".log.previous");
            r
        },
    }
}

/// Why a received file has no part file.
#[derive(Clone, Copy, PartialEq, Eq, Structural, Debug)]
pub struct NoBasename;

/// The part file of a received file: its name with `.part` behind it.
pub fn part_path_for(final_path: &str, windows: bool) -> (r: Result<String, NoBasename>)
    ensures
        match r {
            Ok(path) => name_of(final_path@, windows) matches Some(name) && path@ == beside(
                final_path@,
                ""@,
                name + ".part"@,
                windows,
            ),
            Err(_) => name_of(final_path@, windows) is None,
        },
{
    match file_name(final_path, windows) {
        None => Err(NoBasename),
        Some(name) => {
            let part = concat(&name, ".part");
            Ok(sibling(final_path, "", &part, windows))
        },
    }
}

/// Where received files go: a configured directory, which is taken to lie beside the
/// configuration unless it is absolute, or the platform's own.
pub open spec fn downloads_in(
    config_path: Seq<char>,
    configured: Option<Seq<char>>,
    platform: Seq<char>,
    windows: bool,
) -> Seq<char> {
    match configured {
        Some(dir) => {
            let d = crate::text::trimmed(dir);
            if d.len() == 0 {
                platform
            } else {
                beside(config_path, "."@, d, windows)
            }
        },
        None => platform,
    }
}

/// Where received files go.
pub fn receive_base_directory(
    config_path: &str,
    configured: Option<&str>,
    platform: &str,
    windows: bool,
) -> (r: String)
    ensures
        r@ == downloads_in(config_path@, opt_text(configured), platform@, windows),
{
    match configured {
        Some(dir) => {
            let d = crate::text::trim(dir);
            let v: Vec<char> = to_chars(&d);
            if v.len() == 0 {
                platform.to_owned()
            } else {
                sibling(config_path, ".", &d, windows)
            }
        },
        None => platform.to_owned(),
    }
}

/// The name of a program on this platform.
pub fn executable_name(base: &str, windows: bool) -> (name: String)
    ensures
        name@ == (if windows {
            base@ + ".exe"@
        } else {
            base@
        }),
{
    if windows {
        concat(base, ".exe")
    } else {
        base.to_owned()
    }
}

/// The configuration's directory and file below a base directory.
pub open spec fn config_below(base: Seq<char>, windows: bool) -> Seq<char> {
    below(below(base, "nexkvm"@, windows), "config.toml"@, windows)
}

/// Where the configuration lies: below the application data directory on
/// Windows, below `XDG_CONFIG_HOME` where it is set, else below the home
/// directory's place for settings, else here.
pub open spec fn config_path_in(
    windows: bool,
    macos: bool,
    app_data: Option<Seq<char>>,
    user_profile: Option<Seq<char>>,
    xdg_config_home: Option<Seq<char>>,
    home: Option<Seq<char>>,
) -> Seq<char> {
    config_below(
        if windows {
            match (app_data, user_profile) {
                (Some(dir), _) => dir,
                (None, Some(profile)) => below(
                    below(profile, "AppData"@, true),
                    "Roaming"@,
                    true,
                ),
                (None, None) => "."@,
            }
        } else {
            match (xdg_config_home, home) {
                (Some(dir), _) => dir,
                (None, Some(h)) => if macos {
                    below(h, "Library/Application Support"@, false)
                } else {
                    below(h, ".config"@, false)
                },
                (None, None) => "."@,
            }
        },
        windows,
    )
}

/// The characters of an optional text.
pub open spec fn opt_text(t: Option<&str>) -> Option<Seq<char>> {
    match t {
        Some(s) => Some(s@),
        None => None,
    }
}

/// Where the configuration lies, given the environment's directories.
pub fn config_path(
    windows: bool,
    macos: bool,
    app_data: Option<&str>,
    user_profile: Option<&str>,
    xdg_config_home: Option<&str>,
    home: Option<&str>,
) -> (path: String)
    ensures
        path@ == config_path_in(
            windows,
            macos,
            opt_text(app_data),
            opt_text(user_profile),
            opt_text(xdg_config_home),
            opt_text(home),
        ),
{
    let base: String = if windows {
        match (app_data, user_profile) {
            (Some(dir), _) => dir.to_owned(),
            (None, Some(profile)) => {
                let data = join(profile, "AppData", true);
                join(&data, "Roaming", true)
            },
            (None, None) => ".".to_owned(),
        }
    } else {
        match (xdg_config_home, home) {
            (Some(dir), _) => dir.to_owned(),
            (None, Some(h)) => if macos {
                join(h, "Library/Application Support", false)
            } else {
                join(h, ".config", false)
            },
            (None, None) => ".".to_owned(),
        }
    };
    let dir = join(&base, "nexkvm", windows);
    join(&dir, "config.toml", windows)
}

/// A component ends before the first character that parts components, or with the
/// path: a slash, unless the path is taken word for word, and on Windows a backslash.
pub proof fn law_components_end_at_the_first_separator(
    path: Seq<char>,
    from: int,
    windows: bool,
    verbatim: bool,
)
    requires
        0 <= from <= path.len(),
    ensures
        ({
            let end = component_end(path, from, windows, verbatim);
            &&& from <= end <= path.len()
            &&& forall|i: int|
                from <= i < end ==> (#[trigger] path[i] != '/' || verbatim) && (path[i] != '\\'
                    || !windows)
            &&& end < path.len() ==> (path[end] == '/' && !verbatim) || (path[end] == '\\'
                && windows)
        }),
    decreases path.len() - from,
{
    if from < path.len() && !parts(path[from], windows, verbatim) {
        law_components_end_at_the_first_separator(path, from + 1, windows, verbatim);
    }
}

/// Elsewhere than on Windows a path has no prefix, and is rooted where it starts with
/// a slash.
pub proof fn law_slashes_alone_root_paths(path: Seq<char>)
    ensures
        prefix_len(path, false) == 0,
        is_rooted(path, false) <==> path.len() > 0 && path[0] == '/',
        shape_of(path, false) == (PathShape {
            prefix: 0,
            rooted: path.len() > 0 && path[0] == '/',
            windows: false,
            verbatim: false,
        }),
{
}

/// On Windows a letter and a colon at the start are the prefix, and a path that starts
/// with neither a drive nor two separators has none.
pub proof fn law_drives_are_prefixes(path: Seq<char>)
    ensures
        path.len() >= 2 && (('a' <= path[0] <= 'z') || ('A' <= path[0] <= 'Z')) && path[1] == ':'
            ==> prefix_len(path, true) == 2,
        (path.len() < 2 || ((path[0] != '/' && path[0] != '\\') && path[1] != ':') || ((path[0] == '/'
            || path[0] == '\\') && path[1] != '/' && path[1] != '\\')) ==> prefix_len(path, true)
            == 0,
{
}

proof fn lemma_component_end_is(path: Seq<char>, from: int, end: int, verbatim: bool)
    requires
        0 <= from <= end <= path.len(),
        forall|i: int| from <= i < end ==> !parts(#[trigger] path[i], true, verbatim),
        end < path.len() ==> parts(path[end], true, verbatim),
    ensures
        component_end(path, from, true, verbatim) == end,
    decreases end - from,
{
    if from < end {
        assert(!parts(path[from], true, verbatim));
        lemma_component_end_is(path, from + 1, end, verbatim);
    }
}

/// On Windows a server and its share are the prefix of a path that starts with two
/// separators.
pub proof fn law_shares_are_prefixes(server: Seq<char>, share: Seq<char>, rest: Seq<char>)
    requires
        server.len() > 0,
        share.len() > 0,
        server != "."@,
        server != "?"@,
        !server.contains('/') && !server.contains('\\'),
        !share.contains('/') && !share.contains('\\'),
        rest.len() > 0 ==> rest[0] == '\\' || rest[0] == '/',
    ensures
        prefix_len(seq!['\\', '\\'] + server + seq!['\\'] + share + rest, true) == 3 + server.len()
            + share.len(),
{
    reveal_strlit(".");
    reveal_strlit("?");
    let path = seq!['\\', '\\'] + server + seq!['\\'] + share + rest;
    let a = (2 + server.len()) as int;
    let b = (a + 1 + share.len()) as int;
    assert forall|i: int| 2 <= i < a implies !parts(#[trigger] path[i], true, false) by {
        assert(path[i] == server[i - 2]);
        assert(server.contains(path[i]));
    }
    assert forall|i: int| a + 1 <= i < b implies !parts(#[trigger] path[i], true, false) by {
        assert(path[i] == share[i - a - 1]);
        assert(share.contains(path[i]));
    }
    assert(path[a] == '\\');
    assert(b < path.len() ==> path[b] == rest[0]);
    lemma_component_end_is(path, 2, a, false);
    lemma_component_end_is(path, a + 1, b, false);
    assert(path[2] == server[0]);
    if server.len() == 1 {
        assert(server =~= seq![server[0]]);
        assert(server[0] != '.' && server[0] != '?') by {
            if server[0] == '.' {
                assert(server =~= "."@);
            }
            if server[0] == '?' {
                assert(server =~= "?"@);
            }
        }
    } else {
        assert(path[3] == server[1]);
        assert(server.contains(server[1]));
    }
}

/// What is cut from the end of a path is separators and components that are a single
/// dot, and all of them; the head stays.
pub proof fn law_only_separators_and_dots_are_cut(path: Seq<char>, shape: PathShape)
    requires
        shape.head() <= path.len(),
    ensures
        ({
            let kept = without_tail(path, shape);
            let n = kept.len();
            let head = shape.prefix + if shape.rooted {
                1int
            } else {
                0
            };
            let parted = |c: char|
                (c == '/' && !shape.verbatim) || (c == '\\' && shape.windows);
            let dot = |i: int|
                !shape.verbatim && path[i] == '.' && (if i > head {
                    parted(path[i - 1])
                } else {
                    shape.rooted
                });
            &&& head <= n <= path.len()
            &&& kept == path.take(n as int)
            &&& forall|i: int| n <= i < path.len() ==> parted(#[trigger] path[i]) || dot(i)
            &&& n > head ==> !parted(path[n - 1]) && !dot(n - 1)
        }),
    decreases path.len(),
{
    let n = path.len();
    let kept = without_tail(path, shape);
    if n > shape.head() && kept.len() < n {
        let shorter = path.drop_last();
        law_only_separators_and_dots_are_cut(shorter, shape);
        assert(kept == without_tail(shorter, shape));
        assert(kept =~= path.take(kept.len() as int));
        assert forall|i: int| 0 <= i < n - 1 implies #[trigger] path[i] == shorter[i] by {}
    } else {
        lemma_shorter_tail(path, shape);
        assert(path.take(n as int) =~= path);
    }
}

proof fn lemma_shorter_tail(path: Seq<char>, shape: PathShape)
    ensures
        without_tail(path, shape).len() <= path.len(),
        without_tail(path, shape).len() == path.len() ==> without_tail(path, shape) == path && (
        path.len() <= shape.head() || (!shape.splits(path.last()) && !(!shape.verbatim
            && path.last() == '.' && (if path.len() - 1 > shape.head() {
            shape.splits(path[path.len() - 2])
        } else {
            shape.rooted
        })))),
    decreases path.len(),
{
    if path.len() > shape.head() && path.len() > 0 {
        lemma_shorter_tail(path.drop_last(), shape);
    }
}

/// The last component starts behind the last character that parts components, or
/// behind the head where there is none.
pub proof fn law_last_components_hold_no_separator(path: Seq<char>, shape: PathShape)
    requires
        shape.head() <= path.len(),
    ensures
        ({
            let start = last_start(path, shape);
            &&& shape.head() <= start <= path.len()
            &&& forall|i: int|
                start <= i < path.len() ==> (#[trigger] path[i] != '/' || shape.verbatim) && (path[i]
                    != '\\' || !shape.windows)
            &&& start > shape.head() ==> (path[start - 1] == '/' && !shape.verbatim) || (path[start
                - 1] == '\\' && shape.windows)
        }),
    decreases path.len(),
{
    if path.len() > shape.head() && !shape.splits(path.last()) {
        let shorter = path.drop_last();
        law_last_components_hold_no_separator(shorter, shape);
        assert forall|i: int| 0 <= i < path.len() - 1 implies #[trigger] path[i] == shorter[i] by {}
    }
}

/// A path below a directory is the directory, a slash where it has none at its end, and
/// the path; one that starts at the root stands for itself.
pub proof fn law_paths_follow_their_directory(dir: Seq<char>, path: Seq<char>)
    ensures
        path.len() > 0 && path[0] == '/' ==> below(dir, path, false) == path,
        (path.len() == 0 || path[0] != '/') && dir.len() > 0 && dir.last() != '/' ==> below(
            dir,
            path,
            false,
        ) == dir + seq!['/'] + path,
        (path.len() == 0 || path[0] != '/') && (dir.len() == 0 || dir.last() == '/') ==> below(
            dir,
            path,
            false,
        ) == dir + path,
{
    assert(dir.push('/') =~= dir + seq!['/']);
    assert(dir.take(0) + path =~= path);
}

/// On Windows a path below a directory is the directory, a backslash where it has no
/// separator at its end and is no mere drive, and the path. One with a drive stands for
/// itself, and one that starts at the root stays on the directory's drive.
pub proof fn law_windows_paths_follow_their_directory(dir: Seq<char>, path: Seq<char>)
    requires
        !(dir.len() >= 4 && dir.take(4) == seq!['\\', '\\', '?', '\\']),
    ensures
        path.len() >= 2 && (('a' <= path[0] <= 'z') || ('A' <= path[0] <= 'Z')) && path[1] == ':'
            ==> below(dir, path, true) == path,
        path.len() > 0 && (path[0] == '/' || path[0] == '\\') && (path.len() == 1 || (path[1] != '/'
            && path[1] != '\\')) && dir.len() >= 2 && (('a' <= dir[0] <= 'z') || ('A' <= dir[0]
            <= 'Z')) && dir[1] == ':' ==> below(dir, path, true) == dir.take(2) + path,
        path.len() > 0 && path[0] != '/' && path[0] != '\\' && (path.len() == 1 || path[1] != ':') ==> {
            let bare = dir.len() == 0 || dir.last() == '/' || dir.last() == '\\' || (dir.len() == 2
                && (('a' <= dir[0] <= 'z') || ('A' <= dir[0] <= 'Z')) && dir[1] == ':');
            &&& bare ==> below(dir, path, true) == dir + path
            &&& !bare ==> below(dir, path, true) == dir + seq!['\\'] + path
        },
{
    law_drives_are_prefixes(path);
    law_drives_are_prefixes(dir);
    assert(dir.push('\\') =~= dir + seq!['\\']);
    if is_verbatim(dir, true) {
        assert(dir.take(4) =~= seq!['\\', '\\', '?', '\\']);
    }
}

/// Whether a text names something in a directory: it is no dot or two and holds no
/// slash.
pub open spec fn plain_name(name: Seq<char>) -> bool {
    name.len() > 0 && !name.contains('/') && name != "."@ && name != ".."@
}

/// Whether a path has nothing at its end that could be left out: no slash behind a
/// component, and no single dot behind a slash.
pub open spec fn tidy_directory(dir: Seq<char>) -> bool {
    let n = dir.len() as int;
    n == 0 || dir == seq!['/'] || (dir.last() != '/' && !(n >= 2 && dir.last() == '.' && dir[n - 2]
        == '/'))
}

proof fn lemma_child(dir: Seq<char>, name: Seq<char>)
    requires
        plain_name(name),
    ensures
        ({
            let full = below(dir, name, false);
            let shape = shape_of(full, false);
            let start = full.len() - name.len();
            &&& shape.head() <= start
            &&& without_tail(full, shape) == full
            &&& last_start(full, shape) == start
            &&& full.skip(start) == name
            &&& full.take(start) == (if dir.len() == 0 || dir.last() == '/' {
                dir
            } else {
                dir + seq!['/']
            })
        }),
{
    reveal_strlit(".");
    reveal_strlit("..");
    let full = below(dir, name, false);
    let shape = shape_of(full, false);
    let start = full.len() - name.len();
    assert(name.contains(name[0]));
    law_paths_follow_their_directory(dir, name);
    law_slashes_alone_root_paths(full);
    assert(full.skip(start) =~= name);
    assert(full.take(start) =~= if dir.len() == 0 || dir.last() == '/' {
        dir
    } else {
        dir + seq!['/']
    });
    assert forall|i: int| start <= i < full.len() implies #[trigger] full[i] != '/' by {
        assert(full[i] == name[i - start]);
        assert(name.contains(name[i - start]));
    }
    if dir.len() == 0 {
        assert(full[0] == name[0]);
    }
    assert(start > 0 ==> full[start - 1] == '/');
    law_only_separators_and_dots_are_cut(full, shape);
    law_last_components_hold_no_separator(full, shape);
    let n = full.len();
    if without_tail(full, shape).len() < n {
        assert(full[n - 1] != '/');
        assert(full[n - 1] == '.');
        if name.len() > 1 {
            assert(full[n - 2] != '/');
        } else {
            assert(name =~= "."@);
        }
        assert(false);
    }
    assert(full.take(n as int) =~= full);
    let s = last_start(full, shape);
    if s > start {
        assert(full[s - 1] != '/');
    }
    if s < start {
        assert(full[start - 1] == '/');
    }
}

/// What lies in a directory under a name has that name, and the directory for the
/// one that holds it.
pub proof fn law_children_lie_in_their_directory(dir: Seq<char>, name: Seq<char>)
    requires
        plain_name(name),
        tidy_directory(dir),
    ensures
        name_of(below(dir, name, false), false) == Some(name),
        parent_of(below(dir, name, false), false) == Some(dir),
{
    lemma_child(dir, name);
    let full = below(dir, name, false);
    let shape = shape_of(full, false);
    let start = full.len() - name.len();
    let held = full.take(start);
    law_slashes_alone_root_paths(full);
    law_only_separators_and_dots_are_cut(held, shape);
    let kept = without_tail(held, shape);
    if dir.len() == 0 {
        assert(kept =~= dir);
    } else if dir == seq!['/'] {
        assert(full[0] == held[0]);
        assert(kept =~= dir);
    } else {
        assert(held[held.len() - 1] == '/');
        assert(full[0] == held[0]);
        if kept.len() < dir.len() {
            let i = dir.len() - 1;
            assert(held[i] == dir[i]);
            assert(held[i] == '.');
            if i > shape.head() {
                assert(held[i - 1] == dir[i - 1]);
            } else {
                assert(shape.rooted && dir[0] == '/');
                assert(i == 1);
            }
            assert(false);
        }
        assert(kept.len() == dir.len());
        assert(kept =~= dir);
    }
}

/// The root and the empty path lie in no directory and have no name.
pub proof fn law_the_root_has_no_name()
    ensures
        parent_of(seq!['/'], false) is None,
        parent_of(Seq::<char>::empty(), false) is None,
        name_of(seq!['/'], false) is None,
        name_of(Seq::<char>::empty(), false) is None,
{
    let root = seq!['/'];
    let nothing = Seq::<char>::empty();
    law_slashes_alone_root_paths(root);
    law_slashes_alone_root_paths(nothing);
    law_only_separators_and_dots_are_cut(root, shape_of(root, false));
    law_only_separators_and_dots_are_cut(nothing, shape_of(nothing, false));
    law_last_components_hold_no_separator(root, shape_of(root, false));
    law_last_components_hold_no_separator(nothing, shape_of(nothing, false));
    assert(without_tail(root, shape_of(root, false)) == root);
    assert(root.skip(1).len() == 0);
    assert(nothing.skip(0).len() == 0);
}

/// A file beside another one lies in the same directory; beside a path that lies in
/// none it lies in the fallback.
pub proof fn law_siblings_share_their_directory(
    dir: Seq<char>,
    file: Seq<char>,
    fallback: Seq<char>,
    name: Seq<char>,
)
    requires
        plain_name(file),
        tidy_directory(dir),
    ensures
        beside(below(dir, file, false), fallback, name, false) == below(dir, name, false),
        beside(seq!['/'], fallback, name, false) == below(fallback, name, false),
        beside(Seq::empty(), fallback, name, false) == below(fallback, name, false),
{
    law_children_lie_in_their_directory(dir, file);
    law_the_root_has_no_name();
}

/// The last dot of a name is where it is, and nowhere where there is none.
pub proof fn law_the_last_dot_is_found(head: Seq<char>, tail: Seq<char>)
    requires
        !tail.contains('.'),
    ensures
        last_dot(head + seq!['.'] + tail) == head.len(),
        last_dot(tail) == 0,
    decreases tail.len(),
{
    let name = head + seq!['.'] + tail;
    if tail.len() == 0 {
        assert(name.last() == '.');
    } else {
        assert(tail.contains(tail.last()));
        let less = tail.drop_last();
        assert forall|i: int| 0 <= i < less.len() implies less[i] != '.' by {
            assert(tail.contains(tail[i]));
        }
        law_the_last_dot_is_found(head, less);
        assert(name.drop_last() =~= head + seq!['.'] + less);
        assert(name.last() == tail.last());
    }
}

/// A stem is what stands before the last dot; a name whose only dot is its first
/// character, or that has none, is its own stem.
pub proof fn law_stems_end_at_the_last_dot(head: Seq<char>, tail: Seq<char>)
    requires
        !tail.contains('.'),
    ensures
        head.len() > 0 ==> stem_of(head + seq!['.'] + tail) == head,
        stem_of(seq!['.'] + tail) == seq!['.'] + tail,
        stem_of(tail) == tail,
{
    law_the_last_dot_is_found(head, tail);
    law_the_last_dot_is_found(Seq::empty(), tail);
    assert(Seq::<char>::empty() + seq!['.'] + tail =~= seq!['.'] + tail);
    assert((head + seq!['.'] + tail).take(head.len() as int) =~= head);
}

/// A full log goes into the same directory, under its name without the extension and
/// with a new one.
pub proof fn law_full_logs_stay_in_their_directory(
    dir: Seq<char>,
    stem: Seq<char>,
    extension: Seq<char>,
)
    requires
        stem.len() > 0,
        plain_name(stem + seq!['.'] + extension),
        !extension.contains('.'),
    ensures
        previous_log(below(dir, stem + seq!['.'] + extension, false), false) == below(
            dir,
            stem + ".log.previous"@,
            false,
        ),
{
    let name = stem + seq!['.'] + extension;
    let other = stem + ".log.previous"@;
    lemma_child(dir, name);
    law_stems_end_at_the_last_dot(stem, extension);
    assert(name[0] == stem[0]);
    assert(name.contains(name[0]));
    law_paths_follow_their_directory(dir, other);
    let full = below(dir, name, false);
    let start = full.len() - name.len();
    assert(full.take(start) + stem + ".log.previous"@ =~= full.take(start) + other);
}

/// Received files go into the configured directory where it is absolute, into the one
/// of that name beside the configuration where it is not, and into the platform's where
/// it is blank or there is none.
pub proof fn law_received_files_go_where_configured(
    dir: Seq<char>,
    file: Seq<char>,
    configured: Seq<char>,
    platform: Seq<char>,
)
    requires
        plain_name(file),
        tidy_directory(dir),
    ensures
        ({
            let wanted = crate::text::trimmed(configured);
            let config = below(dir, file, false);
            &&& wanted.len() == 0 ==> downloads_in(config, Some(configured), platform, false)
                == platform
            &&& wanted.len() > 0 && wanted[0] == '/' ==> downloads_in(
                config,
                Some(configured),
                platform,
                false,
            ) == wanted
            &&& wanted.len() > 0 && wanted[0] != '/' ==> downloads_in(
                config,
                Some(configured),
                platform,
                false,
            ) == below(dir, wanted, false)
            &&& downloads_in(config, None, platform, false) == platform
        }),
{
    let wanted = crate::text::trimmed(configured);
    law_siblings_share_their_directory(dir, file, "."@, wanted);
    law_paths_follow_their_directory(dir, wanted);
}

proof fn lemma_component_end_shifts(head: Seq<char>, tail: Seq<char>, i: int, verbatim: bool)
    requires
        0 <= i <= tail.len(),
    ensures
        component_end(head + tail, head.len() + i, true, verbatim) == head.len() + component_end(
            tail,
            i,
            true,
            verbatim,
        ),
    decreases tail.len() - i,
{
    if i < tail.len() {
        assert((head + tail)[head.len() + i] == tail[i]);
        lemma_component_end_shifts(head, tail, i + 1, verbatim);
    }
}

proof fn lemma_pieces_shift(head: Seq<char>, tail: Seq<char>, i: int, verbatim: bool)
    requires
        0 <= i <= tail.len() + 1,
    ensures
        pieces(head + tail, head.len() + i, verbatim) == pieces(tail, i, verbatim),
    decreases tail.len() + 1 - i,
{
    let path = head + tail;
    let from = head.len() + i;
    if i < tail.len() {
        lemma_component_end_shifts(head, tail, i, verbatim);
        lemma_component_end(tail, i, true, verbatim);
        let end = component_end(tail, i, true, verbatim);
        lemma_pieces_shift(head, tail, end + 1, verbatim);
        assert(path.subrange(from, head.len() + end) =~= tail.subrange(i, end));
        assert(head.len() + (end + 1) == component_end(path, from, true, verbatim) + 1);
    }
}

/// The components of a path are what stands between its separators, without what is
/// empty: in front of a separator stands one component or none, and the others stand
/// behind it.
pub proof fn law_separators_part_the_components(
    component: Seq<char>,
    separator: char,
    rest: Seq<char>,
    verbatim: bool,
)
    requires
        !component.contains('\\'),
        !verbatim ==> !component.contains('/'),
        separator == '\\' || (separator == '/' && !verbatim),
    ensures
        component.len() > 0 ==> pieces(component + seq![separator] + rest, 0, verbatim)
            == seq![component] + pieces(rest, 0, verbatim),
        component.len() > 0 ==> pieces(component, 0, verbatim) == seq![component],
        pieces(seq![separator] + rest, 0, verbatim) == pieces(rest, 0, verbatim),
        pieces(Seq::empty(), 0, verbatim).len() == 0,
{
    let n = component.len() as int;
    let path = component + seq![separator] + rest;
    assert forall|i: int| 0 <= i < n implies !parts(#[trigger] component[i], true, verbatim) by {
        assert(component.contains(component[i]));
    }
    assert forall|i: int| 0 <= i < n implies !parts(#[trigger] path[i], true, verbatim) by {
        assert(path[i] == component[i]);
    }
    lemma_component_end_is(component, 0, n, verbatim);
    lemma_component_end_is(path, 0, n, verbatim);
    assert(component.subrange(0, n) =~= component);
    assert(path.subrange(0, n) =~= component);
    lemma_pieces_shift(component + seq![separator], rest, 0, verbatim);
    assert(seq![component] + pieces(component, n + 1, verbatim) =~= seq![component]);
    lemma_component_end_is(seq![separator] + rest, 0, 0, verbatim);
    lemma_pieces_shift(seq![separator], rest, 0, verbatim);
}

/// A name goes down, a dot stays, and two dots go up from a name and stay elsewhere, at
/// whichever step.
pub proof fn law_two_dots_go_up(held: Seq<Seq<char>>, steps: Seq<Seq<char>>, step: Seq<char>)
    ensures
        ({
            let n = steps.len() as int;
            let reached = walked(held, steps, n);
            let then = walked(held, steps.push(step), n + 1);
            &&& step != "."@ && step != ".."@ ==> then == reached.push(step)
            &&& step == "."@ ==> then == reached
            &&& step == ".."@ ==> then == (if reached.len() > 0 && reached.last() != "."@
                && reached.last() != ".."@ {
                reached.drop_last()
            } else {
                reached
            })
            &&& walked(held, steps, 0) == held
        }),
{
    reveal_strlit(".");
    reveal_strlit("..");
    assert("."@.len() == 1 && ".."@.len() == 2);
    lemma_walked_prefix(held, steps, steps.push(step), steps.len() as int);
}

proof fn lemma_walked_prefix(
    held: Seq<Seq<char>>,
    a: Seq<Seq<char>>,
    b: Seq<Seq<char>>,
    n: int,
)
    requires
        n <= a.len(),
        n <= b.len(),
        forall|i: int| 0 <= i < n ==> a[i] == b[i],
    ensures
        walked(held, a, n) == walked(held, b, n),
    decreases n,
{
    if n > 0 {
        lemma_walked_prefix(held, a, b, n - 1);
    }
}

/// Below a directory that is taken word for word a name is one more component, and the
/// components have one backslash between each two of them.
pub proof fn law_names_go_below_verbatim_directories(dir: Seq<char>, name: Seq<char>)
    requires
        dir.len() >= 4,
        dir.take(4) == seq!['\\', '\\', '?', '\\'],
        name.len() > 0,
        !name.contains('/') && !name.contains('\\') && !name.contains(':'),
        name != "."@ && name != ".."@,
    ensures
        below(dir, name, true) == dir.take(prefix_len(dir, true)) + seq!['\\'] + joined(
            pieces(dir, head_len(dir, true), true).push(name),
            "\\"@,
        ),
{
    assert(dir[0] == dir.take(4)[0] && dir[1] == dir.take(4)[1] && dir[2] == dir.take(4)[2] && dir[3]
        == dir.take(4)[3]);
    assert(is_verbatim(dir, true));
    assert(name.contains(name[0]));
    if name.len() > 1 {
        assert(name.contains(name[1]));
    }
    law_drives_are_prefixes(name);
    law_separators_part_the_components(name, '\\', Seq::empty(), false);
    let held = pieces(dir, head_len(dir, true), true);
    let none = Seq::<Seq<char>>::empty();
    law_two_dots_go_up(held, none, name);
    assert(none.push(name) =~= seq![name]);
    assert(verbatim_steps(dir, name) == held.push(name));
    let prefix = dir.take(prefix_len(dir, true));
    assert(prefix.push('\\') =~= prefix + seq!['\\']);
}

/// The configuration lies in the directory that the environment names: elsewhere than
/// on Windows in the one for configurations, else in the home directory's place for
/// them, and where neither is known in the current one.
#[verifier::spinoff_prover]
#[verifier::rlimit(60)]
pub proof fn law_configurations_lie_where_the_environment_says(
    dir: Seq<char>,
    macos: bool,
    app_data: Option<Seq<char>>,
    user_profile: Option<Seq<char>>,
    home: Option<Seq<char>>,
)
    requires
        dir.len() > 0,
        dir.last() != '/',
    ensures
        config_path_in(false, macos, app_data, user_profile, Some(dir), home) == dir
            + "/nexkvm/config.toml"@,
        config_path_in(false, false, app_data, user_profile, None, Some(dir)) == dir
            + "/.config/nexkvm/config.toml"@,
        config_path_in(false, true, app_data, user_profile, None, Some(dir)) == dir
            + "/Library/Application Support/nexkvm/config.toml"@,
        config_path_in(false, macos, app_data, user_profile, None, None)
            == "./nexkvm/config.toml"@,
{
    reveal_strlit("nexkvm");
    reveal_strlit("config.toml");
    reveal_strlit(".config");
    reveal_strlit("Library/Application Support");
    reveal_strlit("/nexkvm/config.toml");
    reveal_strlit("/.config/nexkvm/config.toml");
    reveal_strlit("/Library/Application Support/nexkvm/config.toml");
    reveal_strlit("./nexkvm/config.toml");
    reveal_strlit(".");
    lemma_config_below(dir);
    lemma_config_below("."@);
    assert("."@ + "/nexkvm/config.toml"@ =~= "./nexkvm/config.toml"@);
    law_paths_follow_their_directory(dir, ".config"@);
    lemma_config_below(dir + seq!['/'] + ".config"@);
    assert(dir + seq!['/'] + ".config"@ + "/nexkvm/config.toml"@ =~= dir
        + "/.config/nexkvm/config.toml"@);
    law_paths_follow_their_directory(dir, "Library/Application Support"@);
    lemma_config_below(dir + seq!['/'] + "Library/Application Support"@);
    assert(dir + seq!['/'] + "Library/Application Support"@ + "/nexkvm/config.toml"@ =~= dir
        + "/Library/Application Support/nexkvm/config.toml"@);
}

#[verifier::spinoff_prover]
#[verifier::rlimit(60)]
proof fn lemma_config_below(dir: Seq<char>)
    requires
        dir.len() > 0,
        dir.last() != '/',
    ensures
        config_below(dir, false) == dir + "/nexkvm/config.toml"@,
{
    reveal_strlit("nexkvm");
    reveal_strlit("config.toml");
    reveal_strlit("/nexkvm/config.toml");
    law_paths_follow_their_directory(dir, "nexkvm"@);
    law_paths_follow_their_directory(dir + seq!['/'] + "nexkvm"@, "config.toml"@);
    assert(dir + seq!['/'] + "nexkvm"@ + seq!['/'] + "config.toml"@ =~= dir
        + "/nexkvm/config.toml"@);
}

/// On Windows the configuration lies in the directory for application data, else in
/// the profile's, and where neither is known in the current one.
pub proof fn law_windows_configurations_lie_with_application_data(
    dir: Seq<char>,
    macos: bool,
    user_profile: Option<Seq<char>>,
    xdg_config_home: Option<Seq<char>>,
    home: Option<Seq<char>>,
)
    requires
        dir.len() >= 4,
        dir.take(4) != seq!['\\', '\\', '?', '\\'],
        dir.last() != '/' && dir.last() != '\\',
    ensures
        config_path_in(true, macos, Some(dir), user_profile, xdg_config_home, home) == dir
            + "\\nexkvm\\config.toml"@,
        config_path_in(true, macos, None, Some(dir), xdg_config_home, home) == dir
            + "\\AppData\\Roaming\\nexkvm\\config.toml"@,
{
    lemma_windows_config_below(dir);
    lemma_windows_profile(dir);
}

#[verifier::spinoff_prover]
#[verifier::rlimit(60)]
proof fn lemma_windows_profile(dir: Seq<char>)
    requires
        dir.len() >= 4,
        dir.take(4) != seq!['\\', '\\', '?', '\\'],
        dir.last() != '/' && dir.last() != '\\',
    ensures
        config_below(below(below(dir, "AppData"@, true), "Roaming"@, true), true) == dir
            + "\\AppData\\Roaming\\nexkvm\\config.toml"@,
{
    let data = dir + seq!['\\'] + "AppData"@;
    let roaming = data + seq!['\\'] + "Roaming"@;
    assert(below(dir, "AppData"@, true) == data) by {
        reveal_strlit("AppData");
        law_windows_paths_follow_their_directory(dir, "AppData"@);
    }
    assert(below(data, "Roaming"@, true) == roaming && roaming.len() >= 4 && roaming.take(4)
        == dir.take(4) && roaming.last() == 'g') by {
        reveal_strlit("AppData");
        reveal_strlit("Roaming");
        assert(data.take(4) =~= dir.take(4));
        assert(roaming.take(4) =~= dir.take(4));
        law_windows_paths_follow_their_directory(data, "Roaming"@);
    }
    lemma_windows_config_below(roaming);
    assert("\\AppData\\Roaming\\nexkvm\\config.toml"@ == seq!['\\'] + "AppData"@ + seq!['\\']
        + "Roaming"@ + "\\nexkvm\\config.toml"@) by {
        reveal_strlit("AppData");
        reveal_strlit("Roaming");
        reveal_strlit("\\nexkvm\\config.toml");
        reveal_strlit("\\AppData\\Roaming\\nexkvm\\config.toml");
        assert("\\AppData\\Roaming\\nexkvm\\config.toml"@ =~= seq!['\\'] + "AppData"@
            + seq!['\\'] + "Roaming"@ + "\\nexkvm\\config.toml"@);
    }
    assert(roaming + "\\nexkvm\\config.toml"@ =~= dir + (seq!['\\'] + "AppData"@ + seq!['\\']
        + "Roaming"@ + "\\nexkvm\\config.toml"@));
}

#[verifier::spinoff_prover]
#[verifier::rlimit(60)]
proof fn lemma_windows_config_below(dir: Seq<char>)
    requires
        dir.len() >= 4,
        dir.take(4) != seq!['\\', '\\', '?', '\\'],
        dir.last() != '/' && dir.last() != '\\',
    ensures
        config_below(dir, true) == dir + "\\nexkvm\\config.toml"@,
{
    reveal_strlit("nexkvm");
    reveal_strlit("config.toml");
    reveal_strlit("\\nexkvm\\config.toml");
    law_windows_paths_follow_their_directory(dir, "nexkvm"@);
    let inner = dir + seq!['\\'] + "nexkvm"@;
    assert(inner.take(4) =~= dir.take(4));
    law_windows_paths_follow_their_directory(inner, "config.toml"@);
    assert(inner + seq!['\\'] + "config.toml"@ =~= dir + "\\nexkvm\\config.toml"@);
}

/// A path that starts at the root leads, below a directory that is taken word for word,
/// from the directory's prefix: nothing of the directory's own components stays.
pub proof fn law_rooted_names_leave_verbatim_directories(dir: Seq<char>, name: Seq<char>)
    requires
        dir.len() >= 4,
        dir.take(4) == seq!['\\', '\\', '?', '\\'],
        name.len() > 0,
        !name.contains('/') && !name.contains('\\') && !name.contains(':'),
        name != "."@ && name != ".."@,
    ensures
        below(dir, seq!['\\'] + name, true) == dir.take(prefix_len(dir, true)) + seq!['\\'] + name,
{
    assert(dir[0] == dir.take(4)[0] && dir[1] == dir.take(4)[1] && dir[2] == dir.take(4)[2] && dir[3]
        == dir.take(4)[3]);
    assert(is_verbatim(dir, true));
    assert(name.contains(name[0]));
    let path = seq!['\\'] + name;
    assert(path[1] == name[0]);
    law_drives_are_prefixes(path);
    assert(is_rooted(path, true));
    law_separators_part_the_components(name, '\\', Seq::empty(), false);
    law_separators_part_the_components(Seq::empty(), '\\', name, false);
    let none = Seq::<Seq<char>>::empty();
    law_two_dots_go_up(none, none, name);
    assert(none.push(name) =~= seq![name]);
    assert(verbatim_steps(dir, path) == seq![name]);
    let prefix = dir.take(prefix_len(dir, true));
    assert(prefix.push('\\') =~= prefix + seq!['\\']);
    assert(joined(seq![name], "\\"@) == name);
}

/// The components of a path start behind its prefix and the separator that follows it.
pub proof fn law_components_start_behind_the_head(path: Seq<char>, windows: bool)
    ensures
        ({
            let k = prefix_len(path, windows);
            &&& head_len(path, windows) == k + 1 <==> k < path.len() && (path[k] == '/' || (windows
                && path[k] == '\\'))
            &&& head_len(path, windows) == k <==> !(k < path.len() && (path[k] == '/' || (windows
                && path[k] == '\\')))
        }),
{
}

/// Two separators behind a server leave no share, and so no prefix.
pub proof fn law_servers_without_a_share_are_no_prefix(server: Seq<char>, rest: Seq<char>)
    requires
        server.len() > 0,
        server != "."@,
        server != "?"@,
        !server.contains('/') && !server.contains('\\'),
    ensures
        prefix_len(seq!['\\', '\\'] + server + seq!['\\', '\\'] + rest, true) == 0,
        prefix_len(seq!['\\', '\\'] + server, true) == 0,
{
    reveal_strlit(".");
    reveal_strlit("?");
    let path = seq!['\\', '\\'] + server + seq!['\\', '\\'] + rest;
    let short = seq!['\\', '\\'] + server;
    let a = (2 + server.len()) as int;
    assert forall|i: int| 2 <= i < a implies !parts(#[trigger] path[i], true, false) && !parts(
        short[i],
        true,
        false,
    ) by {
        assert(path[i] == server[i - 2] && short[i] == server[i - 2]);
        assert(server.contains(path[i]));
    }
    assert forall|i: int| 2 <= i < a implies !parts(#[trigger] short[i], true, false) by {
        assert(path[i] == short[i]);
    }
    assert(path[a] == '\\' && path[a + 1] == '\\');
    lemma_component_end_is(path, 2, a, false);
    lemma_component_end_is(path, a + 1, a + 1, false);
    lemma_component_end_is(short, 2, a, false);
    assert(path[2] == server[0] && short[2] == server[0]);
    if server.len() == 1 {
        assert(server =~= seq![server[0]]);
        if server[0] == '.' {
            assert(server =~= "."@);
        }
        if server[0] == '?' {
            assert(server =~= "?"@);
        }
    } else {
        assert(path[3] == server[1] && short[3] == server[1]);
        assert(server.contains(server[1]));
    }
}

/// Behind the mark of a path that is taken word for word stands a drive, a server with
/// its share, or a device.
pub proof fn law_verbatim_prefixes_name_what_they_root(
    name: Seq<char>,
    share: Seq<char>,
    rest: Seq<char>,
)
    requires
        name.len() > 0,
        share.len() > 0,
        !name.contains('/') && !name.contains('\\') && !name.contains(':'),
        !share.contains('\\'),
        name != "UNC"@,
        rest.len() > 0 ==> rest[0] == '\\',
    ensures
        ({
            let mark = seq!['\\', '\\', '?', '\\'];
            let unc = seq!['U', 'N', 'C', '\\'];
            &&& prefix_len(mark + name + rest, true) == 4 + name.len()
            &&& prefix_len(mark + seq!['C', ':'] + rest, true) == 6
            &&& prefix_len(mark + unc + name + seq!['\\'] + share + rest, true) == 9 + name.len()
                + share.len()
        }),
{
    reveal_strlit("UNC");
    let mark = seq!['\\', '\\', '?', '\\'];
    let unc = seq!['U', 'N', 'C', '\\'];
    let device = mark + name + rest;
    let n = (4 + name.len()) as int;
    assert forall|i: int| 4 <= i < n implies !parts(#[trigger] device[i], true, true) by {
        assert(device[i] == name[i - 4]);
        assert(name.contains(device[i]));
    }
    assert(n < device.len() ==> device[n] == rest[0]);
    lemma_component_end_is(device, 4, n, true);
    if name.len() > 1 {
        assert(device[5] == name[1]);
        assert(name.contains(name[1]));
    } else {
        assert(5 < device.len() ==> device[5] == rest[0]);
    }
    assert(!(device.len() >= 8 && device[4] == 'U' && device[5] == 'N' && device[6] == 'C'
        && is_separator(device[7], true))) by {
        if device.len() >= 8 && device[4] == 'U' && device[5] == 'N' && device[6] == 'C'
            && is_separator(device[7], true) {
            assert(device[4] == name[0]);
            assert(name.len() >= 3) by {
                if name.len() == 1 {
                    assert(device[5] == rest[0]);
                }
                if name.len() == 2 {
                    assert(device[6] == rest[0]);
                }
            }
            if name.len() == 3 {
                assert(name[1] == device[5] && name[2] == device[6]);
                assert(name =~= "UNC"@);
            } else {
                assert(device[7] == name[3]);
                assert(name.contains(name[3]));
            }
        }
    }
    let drive = mark + seq!['C', ':'] + rest;
    assert(drive[4] == 'C' && drive[5] == ':');
    assert(6 < drive.len() ==> drive[6] == rest[0]);
    let shared = mark + unc + name + seq!['\\'] + share + rest;
    let a = (8 + name.len()) as int;
    let b = (a + 1 + share.len()) as int;
    assert forall|i: int| 8 <= i < a implies !parts(#[trigger] shared[i], true, true) by {
        assert(shared[i] == name[i - 8]);
        assert(name.contains(shared[i]));
    }
    assert forall|i: int| a + 1 <= i < b implies !parts(#[trigger] shared[i], true, true) by {
        assert(shared[i] == share[i - a - 1]);
        assert(share.contains(shared[i]));
    }
    assert(shared[a] == '\\');
    assert(b < shared.len() ==> shared[b] == rest[0]);
    assert(shared[4] == 'U' && shared[5] == 'N' && shared[6] == 'C' && shared[7] == '\\');
    lemma_component_end_is(shared, 8, a, true);
    lemma_component_end_is(shared, a + 1, b, true);
}

} // verus!
