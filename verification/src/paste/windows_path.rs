//! Windows paths in pasted text, and their places under WSL.
use crate::text;
use vstd::prelude::*;

verus! {

/// Tells the separators of Windows paths.
pub open spec fn is_windows_separator() -> spec_fn(char) -> bool {
    |c: char| c == '\\' || c == '/'
}

/// Whether a text starts with two backslashes, as a UNC path does.
pub open spec fn is_unc(s: Seq<char>) -> bool {
    s.len() >= 2 && s[0] == '\\' && s[1] == '\\'
}

/// Whether a text starts with a drive letter and a colon.
pub open spec fn has_drive(s: Seq<char>) -> bool {
    s.len() >= 2 && text::is_ascii_letter(s[0]) && s[1] == ':'
}

/// Whether a text starts like an absolute path on a drive.
pub open spec fn is_drive_path(s: Seq<char>) -> bool {
    has_drive(s) && s.len() >= 3 && is_windows_separator()(s[2])
}

/// The lower-case form of an ASCII letter.
pub open spec fn lower_letter(c: char) -> char {
    if text::is_ascii_upper(c) {
        (c as u8 + 32) as char
    } else {
        c
    }
}

/// A path with components behind it.
pub open spec fn with_components(base: Seq<char>, parts: Seq<Seq<char>>) -> Seq<char>
    decreases parts.len(),
{
    if parts.len() == 0 {
        base
    } else {
        with_components(base, parts.drop_last()).push('/') + parts.last()
    }
}

/// The place of a drive under WSL.
pub open spec fn drive_mount(letter: char) -> Seq<char> {
    "/mnt/"@.push(lower_letter(letter))
}

/// The place under WSL of a Windows path with a drive.
pub open spec fn wsl_place(s: Seq<char>) -> Option<Seq<char>> {
    if has_drive(s) {
        Some(
            with_components(
                drive_mount(s[0]),
                text::nonempty_pieces(s.skip(2), is_windows_separator()),
            ),
        )
    } else {
        None
    }
}

/// What a pasted text is as a Windows path: under WSL its place there, if it
/// has one, and else the text itself.
pub open spec fn windows_path(s: Seq<char>, wsl: bool) -> Option<Seq<char>> {
    if is_drive_path(s) || is_unc(s) {
        if wsl && wsl_place(s) is Some {
            wsl_place(s)
        } else {
            Some(s)
        }
    } else {
        None
    }
}

/// The place under WSL of a Windows path with a drive.
pub fn convert_windows_path_to_wsl(input: &str) -> (r: Option<String>)
    ensures
        match r {
            Some(place) => wsl_place(input@) == Some(place@),
            None => wsl_place(input@) is None,
        },
{
    let cs: Vec<char> = text::chars_of(input);
    if cs.len() < 2 {
        return None;
    }
    let first: char = cs[0];
    let upper: bool = 'A' <= first && first <= 'Z';
    let lower: bool = 'a' <= first && first <= 'z';
    if !(upper || lower) || cs[1] != ':' {
        return None;
    }
    let mut out: String = "/mnt/".to_string();
    if upper {
        out.push((first as u8 + 32) as char);
    } else {
        out.push(first);
    }
    let ghost base = out@;
    let ghost body = input@.skip(2);
    let ghost sep = is_windows_separator();
    let ghost full = |piece: Seq<char>| piece.len() > 0;
    let ghost mut parts: Seq<Seq<char>> = Seq::empty();
    let mut current: String = String::new();
    let mut i: usize = 2;
    while i < cs.len()
        invariant
            cs@ == input@,
            2 <= i <= cs@.len(),
            body == input@.skip(2),
            sep == is_windows_separator(),
            full == (|piece: Seq<char>| piece.len() > 0),
            current@ == text::last_piece(body.take(i - 2), sep),
            parts == text::closed_pieces(body.take(i - 2), sep).filter(full),
            out@ == with_components(base, parts),
        decreases cs@.len() - i,
    {
        let c: char = cs[i];
        let ghost before = body.take(i - 2);
        let ghost after = body.take(i - 1);
        proof {
            assert(after.drop_last() =~= before);
            assert(after.last() == c);
            text::lemma_filter_push(text::closed_pieces(before, sep), current@, full);
        }
        if c == '\\' || c == '/' {
            if !current.as_str().is_empty() {
                proof {
                    assert(parts.push(current@).drop_last() =~= parts);
                    parts = parts.push(current@);
                }
                out.push('/');
                out.append(current.as_str());
            }
            current = String::new();
        } else {
            current.push(c);
        }
        i += 1;
    }
    proof {
        assert(body.take(i - 2) =~= body);
        text::lemma_filter_push(text::closed_pieces(body, sep), current@, full);
    }
    if !current.as_str().is_empty() {
        proof {
            assert(parts.push(current@).drop_last() =~= parts);
            parts = parts.push(current@);
        }
        out.push('/');
        out.append(current.as_str());
    }
    Some(out)
}

/// What a pasted text is as a Windows path.
pub fn normalize_windows_path(input: &str, wsl: bool) -> (r: Option<String>)
    ensures
        match r {
            Some(p) => windows_path(input@, wsl) == Some(p@),
            None => windows_path(input@, wsl) is None,
        },
{
    let cs: Vec<char> = text::chars_of(input);
    let n: usize = cs.len();
    let drive: bool = n >= 3 && (('A' <= cs[0] && cs[0] <= 'Z') || ('a' <= cs[0] && cs[0] <= 'z'))
        && cs[1] == ':' && (cs[2] == '\\' || cs[2] == '/');
    let unc: bool = n >= 2 && cs[0] == '\\' && cs[1] == '\\';
    if !drive && !unc {
        return None;
    }
    if wsl {
        if let Some(place) = convert_windows_path_to_wsl(input) {
            return Some(place);
        }
    }
    Some(input.to_string())
}

proof fn lemma_with_components_prefix(base: Seq<char>, parts: Seq<Seq<char>>)
    ensures
        base.is_prefix_of(with_components(base, parts)),
    decreases parts.len(),
{
    if parts.len() > 0 {
        lemma_with_components_prefix(base, parts.drop_last());
        let head = with_components(base, parts.drop_last());
        let whole = with_components(base, parts);
        assert(whole.take(base.len() as int) =~= head.take(base.len() as int));
    } else {
        assert(base.take(base.len() as int) =~= base);
    }
}

proof fn lemma_with_components_slashes(base: Seq<char>, parts: Seq<Seq<char>>)
    requires
        !base.contains('\\'),
        base.len() > 0,
        base.last() != '/',
        forall|k: int| #![trigger parts[k]]
            0 <= k < parts.len() ==> parts[k].len() > 0 && !parts[k].contains('\\')
                && !parts[k].contains('/'),
    ensures
        !with_components(base, parts).contains('\\'),
        with_components(base, parts).len() > 0,
        with_components(base, parts).last() != '/',
        forall|i: int|
            base.len() <= i < with_components(base, parts).len() - 1 ==> !(#[trigger]
            with_components(base, parts)[i] == '/' && with_components(base, parts)[i + 1] == '/'),
    decreases parts.len(),
{
    if parts.len() > 0 {
        let front = parts.drop_last();
        assert forall|k: int| #![trigger front[k]] 0 <= k < front.len() implies front[k].len() > 0
            && !front[k].contains('\\') && !front[k].contains('/') by {
            assert(front[k] == parts[k]);
        }
        lemma_with_components_slashes(base, front);
        lemma_with_components_prefix(base, front);
        let head = with_components(base, front);
        let tail = parts.last();
        let whole = with_components(base, parts);
        assert(parts[parts.len() - 1] == tail);
        assert forall|i: int| 0 <= i < whole.len() implies whole[i] != '\\' by {
            if i < head.len() {
                assert(whole[i] == head[i]);
                assert(head.contains(head[i]));
            } else if i > head.len() {
                assert(whole[i] == tail[i - head.len() - 1]);
                assert(tail.contains(tail[i - head.len() - 1]));
            }
        }
        assert(tail.contains(tail.last()));
        assert forall|i: int| base.len() <= i < whole.len() - 1 implies !(#[trigger] whole[i] == '/'
            && whole[i + 1] == '/') by {
            if i > head.len() {
                assert(whole[i] == tail[i - head.len() - 1]);
                assert(tail.contains(tail[i - head.len() - 1]));
            } else if i == head.len() {
                assert(whole[i + 1] == tail[0]);
                assert(tail.contains(tail[0]));
            } else if i == head.len() - 1 {
                assert(whole[i] == head.last());
            } else {
                assert(whole[i] == head[i]);
                assert(whole[i + 1] == head[i + 1]);
            }
        }
    }
}

/// A Windows path with a drive lands below the mount of its drive, without
/// backslashes, without a trailing slash and without an empty component.
pub proof fn law_wsl_place_is_below_the_drive_mount(s: Seq<char>)
    requires
        has_drive(s),
    ensures
        wsl_place(s) is Some,
        drive_mount(s[0]).is_prefix_of(wsl_place(s)->0),
        !wsl_place(s)->0.contains('\\'),
        wsl_place(s)->0.last() != '/',
        forall|i: int|
            0 <= i < wsl_place(s)->0.len() - 1 ==> !(#[trigger] wsl_place(s)->0[i] == '/'
                && wsl_place(s)->0[i + 1] == '/'),
{
    reveal_strlit("/mnt/");
    let base = drive_mount(s[0]);
    let sep = is_windows_separator();
    let all = text::pieces(s.skip(2), sep);
    let keep = |piece: Seq<char>| piece.len() > 0;
    let good = |piece: Seq<char>| !piece.contains('\\') && !piece.contains('/');
    let parts = text::nonempty_pieces(s.skip(2), sep);
    assert forall|k: int| 0 <= k < all.len() implies good(#[trigger] all[k]) by {
        let closed = text::closed_pieces(s.skip(2), sep);
        if k < closed.len() {
            text::lemma_closed_piece_without(s.skip(2), sep, k);
            assert(all[k] == closed[k]);
        } else {
            text::lemma_last_piece_without(s.skip(2), sep);
        }
    }
    text::lemma_filter_all(all, keep, good);
    assert forall|k: int| #![trigger parts[k]] 0 <= k < parts.len() implies parts[k].len() > 0
        && !parts[k].contains('\\') && !parts[k].contains('/') by {
        assert(good(all.filter(keep)[k]) && keep(all.filter(keep)[k]));
    }
    lemma_with_components_prefix(base, parts);
    assert(base[0] == '/' && base[1] == 'm' && base[2] == 'n' && base[3] == 't' && base[4] == '/');
    assert(base[5] == lower_letter(s[0]));
    assert forall|i: int| 0 <= i < base.len() implies base[i] != '\\' by {}
    lemma_with_components_slashes(base, parts);
    let place = wsl_place(s)->0;
    assert forall|i: int| 0 <= i < place.len() - 1 implies !(#[trigger] place[i] == '/' && place[i
        + 1] == '/') by {
        if i < base.len() {
            assert(place[i] == base[i]);
            if i + 1 < base.len() {
                assert(place[i + 1] == base[i + 1]);
            }
        }
    }
}

/// Outside WSL, and for UNC paths everywhere, a Windows path stays as it is.
pub proof fn law_windows_path_stays_outside_wsl(s: Seq<char>, wsl: bool)
    requires
        windows_path(s, wsl) is Some,
        !wsl || is_unc(s),
    ensures
        windows_path(s, wsl) == Some(s),
{
}

} // verus!
