//! What paths mean, told by how they are put together.
use crate::paste::image_info;
use crate::paste::image_info::EncodedImageFormat;
use crate::path;
use crate::text;
use crate::text_laws;
use vstd::prelude::*;

verus! {

/// A name that is a component of a path: not empty, without a slash, and not `.`.
pub open spec fn is_name(name: Seq<u8>) -> bool {
    &&& name.len() > 0
    &&& forall|i: int| 0 <= i < name.len() ==> #[trigger] name[i] != 0x2f
    &&& !(name.len() == 1 && name[0] == 0x2e)
}

/// A path with a slash and more behind it.
pub open spec fn below(dir: Seq<u8>, rest: Seq<u8>) -> Seq<u8> {
    dir.push(0x2f) + rest
}

/// The components of a path: a slash and a name behind a path make one more
/// component; a slash by itself, or with a `.` behind it, makes none.
pub proof fn law_components(dir: Seq<u8>, name: Seq<u8>)
    requires
        is_name(name),
    ensures
        path::components(below(dir, name)) == path::components(dir).push(name),
        path::components(dir.push(0x2f)) == path::components(dir),
        path::components(below(dir, seq![0x2eu8])) == path::components(dir),
        path::components(name) == seq![name],
        path::components(Seq::empty()) == Seq::<Seq<u8>>::empty(),
{
    let sep = path::is_slash();
    let keep = path::is_component();
    let dot = seq![0x2eu8];
    let none = Seq::<u8>::empty();
    assert(sep(0x2fu8));
    assert(text_laws::unbroken(name, sep));
    assert(text_laws::unbroken(dot, sep));
    assert(text_laws::unbroken(none, sep));
    text_laws::law_pieces(dir, 0x2fu8, name, sep);
    text_laws::law_pieces(dir, 0x2fu8, dot, sep);
    text_laws::law_pieces(dir, 0x2fu8, none, sep);
    assert(dir.push(0x2f) + none =~= dir.push(0x2f));
    let pieces = text::pieces(dir, sep);
    text::lemma_filter_push(pieces, name, keep);
    text::lemma_filter_push(pieces, dot, keep);
    text::lemma_filter_push(pieces, none, keep);
    text::lemma_filter_push(Seq::<Seq<u8>>::empty(), name, keep);
    text::lemma_filter_push(Seq::<Seq<u8>>::empty(), none, keep);
    reveal(Seq::filter);
    assert(seq![name] =~= Seq::<Seq<u8>>::empty().push(name));
    assert(seq![none] =~= Seq::<Seq<u8>>::empty().push(none));
    assert(path::DOT == 0x2e);
    assert(keep(name)) by {
        if name == dot {
            assert(name[0] == 0x2e);
        }
    }
    assert(!keep(dot));
    assert(!keep(none));
}

/// When two paths are the same: a slash at the end, a repeated slash and an inner
/// `.` make no difference, every name does, and a path from the root is none that
/// starts elsewhere.
pub proof fn law_same_paths(dir: Seq<u8>, other: Seq<u8>, name: Seq<u8>, another: Seq<u8>)
    requires
        is_name(name),
        is_name(another),
        dir.len() > 0,
        other.len() > 0,
    ensures
        path::same_location(dir.push(0x2f), dir),
        path::same_location(below(dir, seq![0x2eu8]), dir),
        path::same_location(below(dir.push(0x2f), name), below(dir, name)),
        path::same_location(below(dir, name), below(other, another)) <==> name == another
            && path::same_location(dir, other),
        path::same_location(name, another) <==> name == another,
        path::same_location(seq![0x2fu8] + name, seq![0x2fu8] + another) <==> name == another,
        !path::same_location(seq![0x2fu8] + name, name),
        !path::same_location(below(dir, name), dir),
{
    law_components(dir, name);
    law_components(other, another);
    law_components(dir.push(0x2f), name);
    law_components(Seq::empty(), name);
    law_components(Seq::empty(), another);
    assert(below(Seq::empty(), name) =~= seq![0x2fu8] + name);
    assert(below(Seq::empty(), another) =~= seq![0x2fu8] + another);
    assert(below(dir, name)[0] == dir[0]);
    assert(below(other, another)[0] == other[0]);
    assert(below(dir.push(0x2f), name)[0] == dir[0]);
    assert(below(dir, seq![0x2eu8])[0] == dir[0]);
    assert(dir.push(0x2f)[0] == dir[0]);
    assert(path::SLASH == 0x2f && path::DOT == 0x2e);
    lemma_starts_here(dir, name);
    lemma_starts_here(other, another);
    lemma_starts_here(dir.push(0x2f), name);
    lemma_starts_here(dir, seq![0x2eu8]);
    lemma_starts_here(dir, Seq::empty());
    assert(below(dir, Seq::empty()) =~= dir.push(0x2f));
    let a = path::components(dir);
    let b = path::components(other);
    assert(a.push(name).drop_last() =~= a);
    assert(b.push(another).drop_last() =~= b);
    assert(a.push(name).last() == name);
    assert(b.push(another).last() == another);
    assert(seq![name][0] == name && seq![another][0] == another);
    assert(Seq::<Seq<u8>>::empty().push(name)[0] == name);
    assert(Seq::<Seq<u8>>::empty().push(another)[0] == another);
    assert(!path::starts_here(name)) by {
        if path::starts_here(name) && name.len() > 1 {
            assert(name[1] == 0x2f);
        }
    }
    assert(!path::starts_here(another)) by {
        if path::starts_here(another) && another.len() > 1 {
            assert(another[1] == 0x2f);
        }
    }
    assert(name[0] != 0x2f && another[0] != 0x2f);
    assert((seq![0x2fu8] + name)[0] == 0x2f);
    assert((seq![0x2fu8] + another)[0] == 0x2f);
    assert(a.push(name).len() != a.len());
}

proof fn lemma_starts_here(dir: Seq<u8>, rest: Seq<u8>)
    requires
        dir.len() > 0,
    ensures
        path::starts_here(below(dir, rest)) == path::starts_here(dir),
        path::is_absolute(below(dir, rest)) == path::is_absolute(dir),
{
    let whole = below(dir, rest);
    assert(whole[0] == dir[0]);
    if dir.len() == 1 {
        assert(whole[1] == 0x2f);
    } else {
        assert(whole[1] == dir[1]);
    }
}

/// Whether bytes spell a lower-case ASCII word in any case.
pub open spec fn spells(bytes: Seq<u8>, word: Seq<char>) -> bool {
    &&& bytes.len() == word.len()
    &&& forall|i: int|
        0 <= i < bytes.len() ==> #[trigger] bytes[i] == word[i] as u8 || bytes[i] + 32 == word[i] as u8
}

/// Whether bytes hold neither a slash nor a dot.
pub open spec fn is_bare(bytes: Seq<u8>) -> bool {
    forall|i: int| 0 <= i < bytes.len() ==> #[trigger] bytes[i] != 0x2f && bytes[i] != 0x2e
}

/// The extension of a path is what stands behind the last dot of its last name,
/// where a stem stands before that dot. A name without a dot, and one that only
/// starts with it, has none.
pub proof fn law_extensions(dir: Seq<u8>, stem: Seq<u8>, extension: Seq<u8>)
    requires
        stem.len() > 0,
        forall|i: int| 0 <= i < stem.len() ==> #[trigger] stem[i] != 0x2f,
        is_bare(extension),
        extension.len() > 0,
    ensures
        path::extension(below(dir, stem.push(0x2e) + extension)) == Some(extension),
        path::extension(stem.push(0x2e) + extension) == Some(extension),
        path::extension(below(dir, seq![0x2eu8] + extension)) is None,
        path::extension(below(dir, extension)) is None,
{
    let sep = path::is_dot();
    let name = stem.push(0x2e) + extension;
    let hidden = seq![0x2eu8] + extension;
    assert(path::DOT == 0x2e && path::SLASH == 0x2f);
    assert forall|i: int| 0 <= i < name.len() implies #[trigger] name[i] != 0x2f by {
        if i < stem.len() {
            assert(name[i] == stem[i]);
        } else if i > stem.len() {
            assert(name[i] == extension[i - stem.len() - 1]);
        }
    }
    assert forall|i: int| 0 <= i < hidden.len() implies #[trigger] hidden[i] != 0x2f by {
        if i > 0 {
            assert(hidden[i] == extension[i - 1]);
        }
    }
    assert(extension[0] != 0x2e);
    assert(name.len() > 1 && hidden.len() > 1);
    law_components(dir, name);
    law_components(dir, hidden);
    law_components(dir, extension);
    let dots = seq![path::DOT, path::DOT];
    assert(name != dots && hidden != dots && extension != dots) by {
        if name == dots {
            assert(name.last() == extension.last());
            assert(extension[extension.len() - 1] != 0x2e);
        }
        if hidden == dots {
            assert(hidden[1] == extension[0]);
        }
    }
    assert(text_laws::unbroken(extension, sep));
    text_laws::lemma_tail_piece(stem.push(0x2e), extension, sep);
    text_laws::lemma_tail_piece(seq![0x2eu8], extension, sep);
    text_laws::lemma_tail_piece(Seq::empty(), extension, sep);
    assert(text::last_piece(stem.push(0x2eu8), sep) =~= Seq::<u8>::empty());
    assert(text::last_piece(seq![0x2eu8], sep) =~= Seq::<u8>::empty());
    assert(text::last_piece(Seq::<u8>::empty(), sep) =~= Seq::<u8>::empty());
    assert(Seq::<u8>::empty() + extension =~= extension);
    let parts = path::components(dir);
    assert(parts.push(name).last() == name);
    assert(parts.push(hidden).last() == hidden);
    assert(parts.push(extension).last() == extension);
    assert(seq![name].last() == name);
}

/// The format of an image goes by the extension of its path, in any case: `png` is
/// PNG, `jpg` and `jpeg` are JPEG, all else is neither.
pub proof fn law_formats_go_by_extension(dir: Seq<u8>, stem: Seq<u8>, extension: Seq<u8>)
    requires
        stem.len() > 0,
        forall|i: int| 0 <= i < stem.len() ==> #[trigger] stem[i] != 0x2f,
        is_bare(extension),
        extension.len() > 0,
    ensures
        ({
            let format = image_info::format_of_path(below(dir, stem.push(0x2e) + extension));
            let png = spells(extension, "png"@);
            let jpeg = spells(extension, "jpg"@) || spells(extension, "jpeg"@);
            &&& format == EncodedImageFormat::Png <==> png
            &&& format == EncodedImageFormat::Jpeg <==> jpeg
            &&& format == EncodedImageFormat::Other <==> !png && !jpeg
            &&& image_info::format_of_path(stem.push(0x2e) + extension) == format
            &&& image_info::format_of_path(below(dir, extension)) == EncodedImageFormat::Other
            &&& image_info::format_of_path(below(dir, seq![0x2eu8] + extension))
                == EncodedImageFormat::Other
        }),
{
    law_extensions(dir, stem, extension);
    reveal_strlit("png");
    reveal_strlit("jpg");
    reveal_strlit("jpeg");
    lemma_spells(extension, "png"@, image_info::png_bytes());
    lemma_spells(extension, "jpg"@, image_info::jpg_bytes());
    lemma_spells(extension, "jpeg"@, image_info::jpeg_bytes());
    if spells(extension, "png"@) && spells(extension, "jpg"@) {
        assert(extension[0] == 'p' as u8 || extension[0] + 32 == 'p' as u8);
        assert(extension[0] == 'j' as u8 || extension[0] + 32 == 'j' as u8);
    }
}

proof fn lemma_spells(bytes: Seq<u8>, word: Seq<char>, lower: Seq<u8>)
    requires
        word.len() == lower.len(),
        forall|i: int| 0 <= i < word.len() ==> #[trigger] word[i] as u8 == lower[i],
        forall|i: int| 0 <= i < lower.len() ==> 97 <= #[trigger] lower[i] <= 122,
    ensures
        image_info::lowers_to(bytes, lower) <==> spells(bytes, word),
{
    let lowered = bytes.map_values(|b: u8| image_info::lower_byte(b));
    if image_info::lowers_to(bytes, lower) {
        assert(lowered == lower);
        assert forall|i: int| 0 <= i < bytes.len() implies #[trigger] bytes[i] == word[i] as u8
            || bytes[i] + 32 == word[i] as u8 by {
            assert(lowered[i] == image_info::lower_byte(bytes[i]));
            assert(lowered[i] == lower[i]);
        }
    }
    if spells(bytes, word) {
        assert forall|i: int| 0 <= i < lowered.len() implies #[trigger] lowered[i] == lower[i] by {
            assert(bytes[i] == word[i] as u8 || bytes[i] + 32 == word[i] as u8);
            assert(97 <= lower[i] <= 122);
        }
        assert(lowered =~= lower);
    }
}

/// A path that starts with `./` is another than the one without it, and the way up
/// has no extension.
pub proof fn law_paths_from_here_and_up(dir: Seq<u8>, name: Seq<u8>, another: Seq<u8>)
    requires
        is_name(name),
        is_name(another),
    ensures
        !path::same_location(seq![0x2eu8, 0x2fu8] + name, name),
        path::same_location(seq![0x2eu8, 0x2fu8] + name, seq![0x2eu8, 0x2fu8] + another) <==> name
            == another,
        path::extension(below(dir, seq![0x2eu8, 0x2eu8])) is None,
{
    let here = seq![0x2eu8];
    let up = seq![0x2eu8, 0x2eu8];
    assert(path::SLASH == 0x2f && path::DOT == 0x2e);
    assert(seq![0x2eu8, 0x2fu8] + name =~= below(here, name));
    assert(seq![0x2eu8, 0x2fu8] + another =~= below(here, another));
    assert(path::starts_here(here));
    lemma_starts_here(here, name);
    lemma_starts_here(here, another);
    assert(!path::starts_here(name)) by {
        if path::starts_here(name) && name.len() > 1 {
            assert(name[1] == 0x2f);
        }
    }
    law_components(here, name);
    law_components(here, another);
    let start = path::components(here);
    assert(start.push(name).last() == name);
    assert(start.push(another).last() == another);
    assert(is_name(up));
    law_components(dir, up);
    assert(path::components(below(dir, up)).last() == up);
}

} // verus!
