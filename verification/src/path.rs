//! File-system paths held as text: their components, file name, stem and
//! extension, and the comparisons made on them, by the rules of Unix paths.
use vstd::prelude::*;

use crate::text::{
    chars_eq, find_last, find_last_char, split_chars, split_on, sub_chars, texts,
};

verus! {

/// The component that stands for the root directory.
pub open spec fn root_component() -> Seq<char> {
    seq!['/']
}

/// The component that stands for the current directory at the start of a
/// relative path.
pub open spec fn here_component() -> Seq<char> {
    seq!['.']
}

/// The pieces between slashes that name something: empty pieces and `.` are
/// dropped.
pub open spec fn named_parts(segs: Seq<Seq<char>>) -> Seq<Seq<char>>
    decreases segs.len(),
{
    if segs.len() == 0 {
        seq![]
    } else {
        let rest = named_parts(segs.drop_last());
        let s = segs.last();
        if s.len() == 0 || s == here_component() {
            rest
        } else {
            rest.push(s)
        }
    }
}

/// The component that a path starts with, if any: the root for an absolute
/// path, `.` for a relative path that begins with `./` or is `.`.
pub open spec fn leading_components(p: Seq<char>) -> Seq<Seq<char>> {
    if p.len() > 0 && p[0] == '/' {
        seq![root_component()]
    } else if p.len() > 0 && p[0] == '.' && (p.len() == 1 || p[1] == '/') {
        seq![here_component()]
    } else {
        seq![]
    }
}

/// The components of a path, as `Path::components` yields them on Unix.
pub open spec fn components(p: Seq<char>) -> Seq<Seq<char>> {
    leading_components(p) + named_parts(split_on(p, '/'))
}

/// Whether a component names a file or directory (it is not the root, `.`
/// or `..`).
pub open spec fn is_normal(c: Seq<char>) -> bool {
    c != root_component() && c != here_component() && c != seq!['.', '.']
}

/// The last component of the path when it names a file, else empty text
/// (`Path::file_name`, with no name read as empty).
pub open spec fn file_name(p: Seq<char>) -> Seq<char> {
    let cs = components(p);
    if cs.len() > 0 && is_normal(cs.last()) {
        cs.last()
    } else {
        seq![]
    }
}

/// The stem of a file name: the name up to its last dot, unless that dot is
/// its first character or there is none.
pub open spec fn stem_of(name: Seq<char>) -> Seq<char> {
    match find_last(name, '.') {
        Some(k) => if k > 0 {
            name.take(k)
        } else {
            name
        },
        None => name,
    }
}

/// The extension of a file name: the text after its last dot, when that dot
/// is not its first character.
pub open spec fn extension_of(name: Seq<char>) -> Option<Seq<char>> {
    match find_last(name, '.') {
        Some(k) => if k > 0 {
            Some(name.skip(k + 1))
        } else {
            None
        },
        None => None,
    }
}

/// The stem of the path's file name (`Path::file_stem`, none read as empty).
pub open spec fn file_stem(p: Seq<char>) -> Seq<char> {
    stem_of(file_name(p))
}

/// Whether the path's file name has the extension `ext`.
pub open spec fn has_extension(p: Seq<char>, ext: Seq<char>) -> bool {
    extension_of(file_name(p)) == Some(ext)
}

/// Whether the components of `base` begin the components of `p`
/// (`Path::starts_with`).
pub open spec fn path_starts_with(p: Seq<char>, base: Seq<char>) -> bool {
    components(base).is_prefix_of(components(p))
}

/// Whether two paths have the same components (`Path`'s `==`).
pub open spec fn same_path(a: Seq<char>, b: Seq<char>) -> bool {
    components(a) == components(b)
}

/// The components of the path `p`.
pub fn path_components(p: &[char]) -> (r: Vec<Vec<char>>)
    ensures
        texts(r@) == components(p@),
{
    let mut out: Vec<Vec<char>> = Vec::new();
    let n = p.len();
    if n > 0 && p[0] == '/' {
        let mut first: Vec<char> = Vec::new();
        first.push('/');
        assert(first@ =~= root_component());
        out.push(first);
        assert(texts(out@) =~= leading_components(p@));
    } else if n > 0 && p[0] == '.' && (n == 1 || p[1] == '/') {
        let mut first: Vec<char> = Vec::new();
        first.push('.');
        assert(first@ =~= here_component());
        out.push(first);
        assert(texts(out@) =~= leading_components(p@));
    } else {
        assert(texts(out@) =~= leading_components(p@));
    }
    let ghost lead = texts(out@);
    let segs = split_chars(p, '/');
    let mut i: usize = 0;
    proof {
        assert(texts(segs@).take(0) =~= Seq::<Seq<char>>::empty());
        assert(lead + named_parts(Seq::<Seq<char>>::empty()) =~= lead);
    }
    while i < segs.len()
        invariant
            i <= segs@.len(),
            texts(out@) == lead + named_parts(texts(segs@).take(i as int)),
        decreases segs@.len() - i,
    {
        let seg = &segs[i];
        let ghost before = texts(out@);
        let ghost taken = texts(segs@).take(i + 1);
        proof {
            assert(taken.drop_last() =~= texts(segs@).take(i as int));
            assert(taken.last() == seg@);
        }
        let is_here = seg.len() == 1 && seg[0] == '.';
        proof {
            if seg@ == here_component() {
                assert(seg@.len() == 1 && seg@[0] == '.');
            }
            if is_here {
                assert(seg@ =~= here_component());
            }
        }
        if seg.len() > 0 && !is_here {
            let piece = sub_chars(seg.as_slice(), 0, seg.len());
            assert(piece@ =~= seg@);
            out.push(piece);
            proof {
                assert(texts(out@) =~= before.push(seg@));
                assert(lead + named_parts(taken) =~= (lead + named_parts(taken.drop_last())).push(
                    seg@,
                ));
            }
        }
        i += 1;
    }
    proof {
        assert(texts(segs@).take(segs@.len() as int) =~= texts(segs@));
    }
    out
}

/// Whether the texts `a` are the first entries of the texts `b`.
pub fn texts_prefix(a: &Vec<Vec<char>>, b: &Vec<Vec<char>>) -> (r: bool)
    ensures
        r == texts(a@).is_prefix_of(texts(b@)),
{
    if a.len() > b.len() {
        return false;
    }
    let mut i: usize = 0;
    while i < a.len()
        invariant
            i <= a@.len() <= b@.len(),
            forall|j: int| 0 <= j < i ==> a@[j]@ == b@[j]@,
        decreases a@.len() - i,
    {
        if !chars_eq(a[i].as_slice(), b[i].as_slice()) {
            proof {
                if texts(a@).is_prefix_of(texts(b@)) {
                    assert(texts(b@).subrange(0, a@.len() as int)[i as int] == b@[i as int]@);
                }
            }
            return false;
        }
        i += 1;
    }
    assert(texts(a@) =~= texts(b@).subrange(0, a@.len() as int));
    true
}

/// Whether the texts `a` and `b` are equal.
pub fn texts_eq(a: &Vec<Vec<char>>, b: &Vec<Vec<char>>) -> (r: bool)
    ensures
        r == (texts(a@) == texts(b@)),
{
    if a.len() != b.len() {
        assert(texts(a@).len() != texts(b@).len());
        return false;
    }
    let r = texts_prefix(a, b);
    proof {
        if r {
            assert(texts(a@) =~= texts(b@));
        }
    }
    r
}

/// The file name of the path `p`.
pub fn path_file_name(p: &[char]) -> (r: Vec<char>)
    ensures
        r@ == file_name(p@),
{
    let cs = path_components(p);
    let k = cs.len();
    if k > 0 {
        let last = &cs[k - 1];
        proof {
            assert(texts(cs@).last() == last@);
        }
        let is_root = last.len() == 1 && last[0] == '/';
        let is_here = last.len() == 1 && last[0] == '.';
        let is_up = last.len() == 2 && last[0] == '.' && last[1] == '.';
        proof {
            if last@ == root_component() || last@ == here_component() {
                assert(last@.len() == 1);
            }
            if last@ == seq!['.', '.'] {
                assert(last@.len() == 2);
            }
            if is_root {
                assert(last@ =~= root_component());
            }
            if is_here {
                assert(last@ =~= here_component());
            }
            if is_up {
                assert(last@ =~= seq!['.', '.']);
            }
        }
        if !is_root && !is_here && !is_up {
            return sub_chars(last.as_slice(), 0, last.len());
        }
    }
    Vec::new()
}

/// The stem of the file name `name`.
pub fn name_stem(name: &[char]) -> (r: Vec<char>)
    ensures
        r@ == stem_of(name@),
{
    let n = name.len();
    match find_last_char(name, '.') {
        Some(k) => {
            proof {
                crate::text::lemma_find_last_range(name@, '.');
            }
            if k > 0 {
                sub_chars(name, 0, k)
            } else {
                sub_chars(name, 0, n)
            }
        },
        None => sub_chars(name, 0, n),
    }
}

/// The extension of the file name `name`.
pub fn name_extension(name: &[char]) -> (r: Option<Vec<char>>)
    ensures
        r matches Some(e) ==> extension_of(name@) == Some(e@),
        r is None ==> extension_of(name@) is None,
{
    let n = name.len();
    match find_last_char(name, '.') {
        Some(k) => {
            proof {
                crate::text::lemma_find_last_range(name@, '.');
            }
            if k > 0 {
                Some(sub_chars(name, k + 1, n))
            } else {
                None
            }
        },
        None => None,
    }
}

/// The stem of the path's file name.
pub fn path_file_stem(p: &[char]) -> (r: Vec<char>)
    ensures
        r@ == file_stem(p@),
{
    let name = path_file_name(p);
    name_stem(name.as_slice())
}

/// Whether the path's file name has the extension `ext`.
pub fn path_has_extension(p: &[char], ext: &[char]) -> (r: bool)
    ensures
        r == has_extension(p@, ext@),
{
    let name = path_file_name(p);
    match name_extension(name.as_slice()) {
        Some(e) => chars_eq(e.as_slice(), ext),
        None => false,
    }
}

/// Whether the path `p` lies under `base`, component by component.
pub fn path_under(p: &[char], base: &[char]) -> (r: bool)
    ensures
        r == path_starts_with(p@, base@),
{
    let pc = path_components(p);
    let bc = path_components(base);
    texts_prefix(&bc, &pc)
}

} // verus!
