//! Unix paths as byte strings: their components and their extension.
use crate::text;
use vstd::prelude::*;
use vstd::utf8::*;

verus! {

/// The byte of `/`.
pub const SLASH: u8 = 0x2f;

/// The byte of `.`.
pub const DOT: u8 = 0x2e;

/// Tells the separator of path components.
pub open spec fn is_slash() -> spec_fn(u8) -> bool {
    |b: u8| b == SLASH
}

/// Tells the dot before an extension.
pub open spec fn is_dot() -> spec_fn(u8) -> bool {
    |b: u8| b == DOT
}

/// Tells the pieces of a path that are components of it: not the empty ones
/// between repeated separators, and not `.`.
pub open spec fn is_component() -> spec_fn(Seq<u8>) -> bool {
    |piece: Seq<u8>| piece.len() > 0 && piece != seq![DOT]
}

/// The components of a path, in order.
pub open spec fn components(path: Seq<u8>) -> Seq<Seq<u8>> {
    text::pieces(path, is_slash()).filter(is_component())
}

/// Whether a path starts at the root.
pub open spec fn is_absolute(path: Seq<u8>) -> bool {
    path.len() > 0 && path[0] == SLASH
}

/// Whether a path starts with the component `.`, which counts there only.
pub open spec fn starts_here(path: Seq<u8>) -> bool {
    path.len() > 0 && path[0] == DOT && (path.len() == 1 || path[1] == SLASH)
}

/// Whether two byte strings name the same path: repeated separators, a trailing
/// separator and inner `.` components make no difference.
pub open spec fn same_location(a: Seq<u8>, b: Seq<u8>) -> bool {
    &&& is_absolute(a) == is_absolute(b)
    &&& starts_here(a) == starts_here(b)
    &&& components(a) == components(b)
}

/// The name of the file that a path ends in.
pub open spec fn file_name(path: Seq<u8>) -> Option<Seq<u8>> {
    let parts = components(path);
    if parts.len() == 0 || parts.last() == seq![DOT, DOT] {
        None
    } else {
        Some(parts.last())
    }
}

/// What follows the last dot of a file name, where something comes before that dot.
pub open spec fn name_extension(name: Seq<u8>) -> Option<Seq<u8>> {
    let behind = text::last_piece(name, is_dot());
    if behind.len() + 1 < name.len() {
        Some(behind)
    } else {
        None
    }
}

/// The extension of a path.
pub open spec fn extension(path: Seq<u8>) -> Option<Seq<u8>> {
    match file_name(path) {
        Some(name) => name_extension(name),
        None => None,
    }
}

/// The contents of a list of byte strings.
pub open spec fn byte_strings(list: Seq<Vec<u8>>) -> Seq<Seq<u8>> {
    list.map_values(|v: Vec<u8>| v@)
}

/// A path in the local file system, by the rules of Unix.
#[derive(Debug, PartialEq, Eq)]
pub struct LocalPath {
    pub bytes: Vec<u8>,
}

impl View for LocalPath {
    type V = Seq<u8>;

    open spec fn view(&self) -> Seq<u8> {
        self.bytes@
    }
}

/// The byte strings of a list of paths.
pub open spec fn paths_view(list: Seq<LocalPath>) -> Seq<Seq<u8>> {
    list.map_values(|p: LocalPath| p@)
}

impl LocalPath {
    /// The path that a text spells.
    pub fn from_text(s: &str) -> (r: Self)
        ensures
            r@ == encode_utf8(s@),
    {
        LocalPath { bytes: s.as_bytes_vec() }
    }

    /// The path that a byte string spells.
    pub fn from_bytes(bytes: Vec<u8>) -> (r: Self)
        ensures
            r@ == bytes@,
    {
        LocalPath { bytes }
    }

    /// The same path again.
    pub fn duplicate(&self) -> (r: Self)
        ensures
            r@ == self@,
    {
        LocalPath { bytes: copy_bytes(self.bytes.as_slice()) }
    }

    /// Whether two paths are the same.
    pub fn same_as(&self, other: &LocalPath) -> (r: bool)
        ensures
            r == same_location(self@, other@),
    {
        let a: &[u8] = self.bytes.as_slice();
        let b: &[u8] = other.bytes.as_slice();
        if path_is_absolute(a) != path_is_absolute(b) || path_starts_here(a) != path_starts_here(
            b,
        ) {
            return false;
        }
        let x: Vec<Vec<u8>> = split_components(a);
        let y: Vec<Vec<u8>> = split_components(b);
        if x.len() != y.len() {
            assert(byte_strings(x@).len() != byte_strings(y@).len());
            return false;
        }
        let n: usize = x.len();
        let mut i: usize = 0;
        while i < n
            invariant
                n == x@.len(),
                n == y@.len(),
                i <= n,
                byte_strings(x@) == components(self@),
                byte_strings(y@) == components(other@),
                forall|k: int| 0 <= k < i ==> (#[trigger] x@[k])@ == y@[k]@,
            decreases n - i,
        {
            if !same_bytes(x[i].as_slice(), y[i].as_slice()) {
                assert(byte_strings(x@)[i as int] != byte_strings(y@)[i as int]);
                return false;
            }
            i += 1;
        }
        assert(byte_strings(x@) =~= byte_strings(y@));
        true
    }

    /// The extension of the path.
    pub fn extension(&self) -> (r: Option<Vec<u8>>)
        ensures
            match r {
                Some(e) => extension(self@) == Some(e@),
                None => extension(self@) is None,
            },
    {
        let mut parts: Vec<Vec<u8>> = split_components(self.bytes.as_slice());
        let ghost all = components(self@);
        match parts.pop() {
            None => {
                assert(all.len() == 0);
                None
            },
            Some(name) => {
                proof {
                    assert(all.last() == name@);
                }
                if name.len() == 2 && name[0] == DOT && name[1] == DOT {
                    assert(name@ =~= seq![DOT, DOT]);
                    None
                } else {
                    behind_last_dot(name.as_slice())
                }
            },
        }
    }
}

/// A copy of a byte string.
pub fn copy_bytes(s: &[u8]) -> (r: Vec<u8>)
    ensures
        r@ == s@,
{
    let mut out: Vec<u8> = Vec::new();
    let mut i: usize = 0;
    while i < s.len()
        invariant
            i <= s@.len(),
            out@ == s@.take(i as int),
        decreases s@.len() - i,
    {
        out.push(s[i]);
        assert(s@.take(i + 1) =~= s@.take(i as int).push(s@[i as int]));
        i += 1;
    }
    assert(s@.take(i as int) =~= s@);
    out
}

/// Whether two byte strings are the same.
pub fn same_bytes(a: &[u8], b: &[u8]) -> (r: bool)
    ensures
        r == (a@ == b@),
{
    if a.len() != b.len() {
        return false;
    }
    let n: usize = a.len();
    let mut i: usize = 0;
    while i < n
        invariant
            n == a@.len(),
            n == b@.len(),
            i <= n,
            forall|k: int| 0 <= k < i ==> a@[k] == b@[k],
        decreases n - i,
    {
        if a[i] != b[i] {
            return false;
        }
        i += 1;
    }
    assert(a@ =~= b@);
    true
}

fn path_is_absolute(path: &[u8]) -> (r: bool)
    ensures
        r == is_absolute(path@),
{
    path.len() > 0 && path[0] == SLASH
}

fn path_starts_here(path: &[u8]) -> (r: bool)
    ensures
        r == starts_here(path@),
{
    path.len() > 0 && path[0] == DOT && (path.len() == 1 || path[1] == SLASH)
}

fn piece_is_component(piece: &[u8]) -> (r: bool)
    ensures
        r == is_component()(piece@),
{
    let here: bool = piece.len() == 1 && piece[0] == DOT;
    proof {
        if here {
            assert(piece@ =~= seq![DOT]);
        }
    }
    piece.len() > 0 && !here
}

/// The components of a path.
fn split_components(path: &[u8]) -> (r: Vec<Vec<u8>>)
    ensures
        byte_strings(r@) == components(path@),
{
    let ghost sep = is_slash();
    let ghost keep = is_component();
    let mut out: Vec<Vec<u8>> = Vec::new();
    let mut current: Vec<u8> = Vec::new();
    let mut i: usize = 0;
    while i < path.len()
        invariant
            i <= path@.len(),
            sep == is_slash(),
            keep == is_component(),
            current@ == text::last_piece(path@.take(i as int), sep),
            byte_strings(out@) == text::closed_pieces(path@.take(i as int), sep).filter(keep),
        decreases path@.len() - i,
    {
        let b: u8 = path[i];
        let ghost before = path@.take(i as int);
        let ghost after = path@.take(i + 1);
        proof {
            assert(after.drop_last() =~= before);
            assert(after.last() == b);
            text::lemma_filter_push(text::closed_pieces(before, sep), current@, keep);
        }
        if b == SLASH {
            if piece_is_component(current.as_slice()) {
                let ghost grown = byte_strings(out@).push(current@);
                out.push(current);
                assert(byte_strings(out@) =~= grown);
            }
            current = Vec::new();
        } else {
            current.push(b);
        }
        i += 1;
    }
    proof {
        assert(path@.take(i as int) =~= path@);
        text::lemma_filter_push(text::closed_pieces(path@, sep), current@, keep);
    }
    if piece_is_component(current.as_slice()) {
        let ghost grown = byte_strings(out@).push(current@);
        out.push(current);
        assert(byte_strings(out@) =~= grown);
    }
    out
}

/// What follows the last dot of a name, where something comes before that dot.
fn behind_last_dot(name: &[u8]) -> (r: Option<Vec<u8>>)
    ensures
        match r {
            Some(e) => name_extension(name@) == Some(e@),
            None => name_extension(name@) is None,
        },
{
    let mut behind: Vec<u8> = Vec::new();
    let mut i: usize = 0;
    while i < name.len()
        invariant
            i <= name@.len(),
            behind@ == text::last_piece(name@.take(i as int), is_dot()),
            behind@.len() <= i,
        decreases name@.len() - i,
    {
        assert(name@.take(i + 1).drop_last() =~= name@.take(i as int));
        if name[i] == DOT {
            behind = Vec::new();
        } else {
            behind.push(name[i]);
        }
        i += 1;
    }
    assert(name@.take(i as int) =~= name@);
    if name.len() > 0 && behind.len() < name.len() - 1 {
        Some(behind)
    } else {
        None
    }
}

/// Sameness of paths is an equivalence.
pub proof fn law_same_location_is_equivalence(a: Seq<u8>, b: Seq<u8>, c: Seq<u8>)
    ensures
        same_location(a, a),
        same_location(a, b) ==> same_location(b, a),
        same_location(a, b) && same_location(b, c) ==> same_location(a, c),
{
}

} // verus!
