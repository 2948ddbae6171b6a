//! The index of desktop files that Debian packages install, built from the
//! `.list` files of dpkg's database.
use vstd::prelude::*;

use crate::path::{components, file_stem, has_extension, path_components, path_file_stem,
    path_has_extension, texts_eq};
use crate::text::{
    before_first, chars_before_first, chars_of, ends_with_chars, split_chars, split_on,
    string_of, texts, trim, trim_chars,
};

verus! {

/// The package that a dpkg `.list` file belongs to: the part of its stem
/// before the first `:` (the architecture qualifier is dropped); empty when
/// the file name is not UTF-8 (`name_exact` false).
pub open spec fn list_package(list_path: Seq<char>, name_exact: bool) -> Seq<char> {
    if name_exact {
        before_first(file_stem(list_path), ':')
    } else {
        seq![]
    }
}

/// A piece of text that a newline follows, without the carriage return
/// that ends it, if any: `\r\n` ends a line as `\n` does.
pub open spec fn line_text(piece: Seq<char>) -> Seq<char> {
    if piece.len() > 0 && piece.last() == '\r' {
        piece.drop_last()
    } else {
        piece
    }
}

/// The lines of a text as `BufRead::lines` gives them: the pieces between
/// newlines, each that a newline follows without a carriage return just
/// before that newline; the last piece, which no newline follows, as it is.
pub open spec fn list_lines(content: Seq<char>) -> Seq<Seq<char>> {
    let pieces = split_on(content, '\n');
    Seq::new(
        pieces.len(),
        |i: int|
            if i + 1 < pieces.len() {
                line_text(pieces[i])
            } else {
                pieces[i]
            },
    )
}

/// Whether a line of a `.list` file names a desktop file.
pub open spec fn names_desktop_file(line: Seq<char>) -> bool {
    ".desktop"@.is_suffix_of(line)
}

/// The index `m` after the listed lines `lines` of package `pkg` are read:
/// each line that ends in `.desktop`, trimmed, maps to `pkg`; a later line
/// for the same path wins.
pub open spec fn index_lines(
    m: Map<Seq<Seq<char>>, Seq<char>>,
    lines: Seq<Seq<char>>,
    pkg: Seq<char>,
) -> Map<Seq<Seq<char>>, Seq<char>>
    decreases lines.len(),
{
    if lines.len() == 0 {
        m
    } else {
        let before = index_lines(m, lines.drop_last(), pkg);
        let line = lines.last();
        if names_desktop_file(line) {
            before.insert(components(trim(line)), pkg)
        } else {
            before
        }
    }
}

/// Which Debian package installed which desktop file.
pub struct DpkgIndex {
    /// Paths, by their components, with their package; a later pair wins.
    pairs: Vec<(Vec<Vec<char>>, String)>,
}

/// The map that a list of pairs stands for, a later pair winning.
pub open spec fn pairs_map(s: Seq<(Vec<Vec<char>>, String)>) -> Map<Seq<Seq<char>>, Seq<char>>
    decreases s.len(),
{
    if s.len() == 0 {
        Map::empty()
    } else {
        pairs_map(s.drop_last()).insert(texts(s.last().0@), s.last().1@)
    }
}

proof fn lemma_pairs_map_last(s: Seq<(Vec<Vec<char>>, String)>, k: Seq<Seq<char>>, i: int)
    requires
        0 <= i < s.len(),
        texts(s[i].0@) == k,
        forall|j: int| i < j < s.len() ==> texts(s[j].0@) != k,
    ensures
        pairs_map(s).contains_key(k),
        pairs_map(s)[k] == s[i].1@,
    decreases s.len(),
{
    if i < s.len() - 1 {
        lemma_pairs_map_last(s.drop_last(), k, i);
    }
}

proof fn lemma_pairs_map_absent(s: Seq<(Vec<Vec<char>>, String)>, k: Seq<Seq<char>>)
    requires
        forall|j: int| 0 <= j < s.len() ==> texts(s[j].0@) != k,
    ensures
        !pairs_map(s).contains_key(k),
    decreases s.len(),
{
    if s.len() > 0 {
        lemma_pairs_map_absent(s.drop_last(), k);
    }
}

impl View for DpkgIndex {
    type V = Map<Seq<Seq<char>>, Seq<char>>;

    /// Desktop-file paths, by their components, to the package that installs them.
    closed spec fn view(&self) -> Map<Seq<Seq<char>>, Seq<char>> {
        pairs_map(self.pairs@)
    }
}

/// The name of the package that a dpkg file belongs to, when it is a `.list`
/// file. `list_path` is the text of the file's path, any bytes that are not
/// UTF-8 replaced, and `name_exact` tells whether its file name is UTF-8.
pub fn dpkg_list_package(list_path: &str, name_exact: bool) -> (r: Option<String>)
    ensures
        r matches Some(p) ==> has_extension(list_path@, "list"@) && p@ == list_package(
            list_path@,
            name_exact,
        ),
        r is None ==> !has_extension(list_path@, "list"@),
{
    let p = chars_of(list_path);
    let ext = chars_of("list");
    if path_has_extension(p.as_slice(), ext.as_slice()) {
        if !name_exact {
            return Some(String::new());
        }
        let stem = path_file_stem(p.as_slice());
        let name = chars_before_first(stem.as_slice(), ':');
        Some(string_of(name.as_slice()))
    } else {
        None
    }
}

impl DpkgIndex {
    /// An empty index.
    pub fn new() -> (r: DpkgIndex)
        ensures
            r@ == Map::<Seq<Seq<char>>, Seq<char>>::empty(),
    {
        DpkgIndex { pairs: Vec::new() }
    }

    /// Records that `package` installs the file at `path`.
    pub fn insert(&mut self, path: &str, package: &str)
        ensures
            final(self)@ == old(self)@.insert(components(path@), package@),
    {
        let p = chars_of(path);
        let cs = path_components(p.as_slice());
        let ghost before = self.pairs@;
        self.pairs.push((cs, String::from_str(package)));
        assert(self.pairs@.drop_last() =~= before);
    }

    /// The package that installs the file at `path`, if the index knows one.
    pub fn package_for(&self, path: &str) -> (r: Option<String>)
        ensures
            r matches Some(v) ==> self@.contains_key(components(path@)) && v@ == self@[components(
                path@,
            )],
            r is None ==> !self@.contains_key(components(path@)),
    {
        let p = chars_of(path);
        let key = path_components(p.as_slice());
        let mut i = self.pairs.len();
        while i > 0
            invariant
                i <= self.pairs@.len(),
                texts(key@) == components(path@),
                forall|j: int| i <= j < self.pairs@.len() ==> texts(self.pairs@[j].0@) != texts(
                    key@,
                ),
            decreases i,
        {
            if texts_eq(&self.pairs[i - 1].0, &key) {
                proof {
                    lemma_pairs_map_last(self.pairs@, texts(key@), i - 1);
                }
                return Some(self.pairs[i - 1].1.clone());
            }
            i -= 1;
        }
        proof {
            lemma_pairs_map_absent(self.pairs@, texts(key@));
        }
        None
    }

    /// Reads the lines of a `.list` file of package `package`: each line that
    /// ends in `.desktop` records, trimmed, a desktop file of that package.
    pub fn add_list(&mut self, package: &str, content: &str)
        ensures
            final(self)@ == index_lines(old(self)@, list_lines(content@), package@),
    {
        let c = chars_of(content);
        let pieces = split_chars(c.as_slice(), '\n');
        let suffix = chars_of(".desktop");
        let mut i: usize = 0;
        let ghost all = list_lines(content@);
        proof {
            assert(all.take(0) =~= Seq::<Seq<char>>::empty());
        }
        while i < pieces.len()
            invariant
                i <= pieces@.len(),
                suffix@ == ".desktop"@,
                texts(pieces@) == split_on(content@, '\n'),
                all == list_lines(content@),
                all.len() == pieces@.len(),
                self@ == index_lines(old(self)@, all.take(i as int), package@),
            decreases pieces@.len() - i,
        {
            let piece = &pieces[i];
            let n = piece.len();
            let line = if i + 1 < pieces.len() && n > 0 && piece[n - 1] == '\r' {
                crate::text::sub_chars(piece.as_slice(), 0, n - 1)
            } else {
                crate::text::sub_chars(piece.as_slice(), 0, n)
            };
            proof {
                let taken = all.take(i + 1);
                assert(taken.drop_last() =~= all.take(i as int));
                assert(texts(pieces@)[i as int] == piece@);
                assert(line@ =~= all[i as int]);
                assert(taken.last() == all[i as int]);
            }
            if ends_with_chars(line.as_slice(), suffix.as_slice()) {
                let trimmed = trim_chars(line.as_slice());
                let s = string_of(trimmed.as_slice());
                self.insert(s.as_str(), package);
            }
            i += 1;
        }
        proof {
            assert(all.take(pieces@.len() as int) =~= all);
        }
    }
}

} // verus!
