//! Local paths, held as the list of their components: the root is the component `/`.

use crate::text::{behind_last, concat2, concat3, find_behind_last, same, texts};
use vstd::prelude::*;
use vstd::string::*;

verus! {

/// A path split into its components.
#[derive(Clone, Debug, PartialEq, Eq)]
pub struct LocalPath {
    pub components: Vec<String>,
}

impl View for LocalPath {
    type V = Seq<Seq<char>>;

    open spec fn view(&self) -> Seq<Seq<char>> {
        texts(self.components@)
    }
}

/// Whether a component is the name of a file or directory.
pub open spec fn is_name(component: Seq<char>) -> bool {
    component != "/"@ && component != ".."@ && component != "."@
}

/// The last component, where it is a name.
pub open spec fn file_name_of(path: Seq<Seq<char>>) -> Option<Seq<char>> {
    if path.len() > 0 && is_name(path.last()) {
        Some(path.last())
    } else {
        None
    }
}

/// The path without its last component; the root and the empty path have no parent.
pub open spec fn parent_of(path: Seq<Seq<char>>) -> Option<Seq<Seq<char>>> {
    if path.len() == 0 || path.last() == "/"@ {
        None
    } else {
        Some(path.drop_last())
    }
}

/// What follows the last dot of a name; a name whose only dot is its first character has none.
pub open spec fn extension_of(name: Seq<char>) -> Option<Seq<char>> {
    let at = behind_last(name, '.') as int;
    if at <= 1 {
        None
    } else {
        Some(name.skip(at))
    }
}

/// A path as text: the separator stands for the root and between two names.
pub open spec fn path_text(path: Seq<Seq<char>>, separator: Seq<char>) -> Seq<char>
    decreases path.len(),
{
    if path.len() == 0 {
        Seq::empty()
    } else {
        let front = path.drop_last();
        let before = path_text(front, separator);
        if path.last() == "/"@ {
            before + separator
        } else if front.len() == 0 || front.last() == "/"@ {
            before + path.last()
        } else {
            before + separator + path.last()
        }
    }
}

impl LocalPath {
    fn copy_prefix(&self, n: usize) -> (r: LocalPath)
        requires
            n <= self.components.len(),
        ensures
            r@ == self@.take(n as int),
    {
        let mut components: Vec<String> = Vec::new();
        let mut i: usize = 0;
        while i < n
            invariant
                i <= n <= self.components.len(),
                texts(components@) == self@.take(i as int),
            decreases n - i,
        {
            let ghost before = components@;
            components.push(self.components[i].clone());
            assert(texts(components@) == texts(before).push(self@[i as int]));
            assert(self@.take(i as int).push(self@[i as int]) == self@.take(i + 1));
            i = i + 1;
        }
        LocalPath { components }
    }

    /// A copy of the path.
    pub fn duplicate(&self) -> (r: LocalPath)
        ensures
            r@ == self@,
    {
        let r = self.copy_prefix(self.components.len());
        assert(self@.take(self@.len() as int) == self@);
        r
    }

    pub fn file_name(&self) -> (r: Option<&str>)
        ensures
            match r {
                Some(name) => file_name_of(self@) == Some(name@),
                None => file_name_of(self@) is None,
            },
    {
        if self.components.len() == 0 {
            return None;
        }
        let last = self.components[self.components.len() - 1].as_str();
        assert(self@.last() == last@);
        if same(last, "/") || same(last, "..") || same(last, ".") {
            None
        } else {
            Some(last)
        }
    }

    pub fn parent(&self) -> (r: Option<LocalPath>)
        ensures
            match r {
                Some(parent) => parent_of(self@) == Some(parent@),
                None => parent_of(self@) is None,
            },
    {
        if self.components.len() == 0 {
            return None;
        }
        let n: usize = self.components.len() - 1;
        assert(self@.last() == self.components@[n as int]@);
        if same(self.components[n].as_str(), "/") {
            return None;
        }
        assert(self@.take(n as int) == self@.drop_last());
        Some(self.copy_prefix(n))
    }

    /// Whether the path lies at or below `base`.
    pub fn starts_with(&self, base: &LocalPath) -> (r: bool)
        ensures
            r == base@.is_prefix_of(self@),
    {
        if base.components.len() > self.components.len() {
            return false;
        }
        let mut i: usize = 0;
        while i < base.components.len()
            invariant
                i <= base.components.len() <= self.components.len(),
                forall|j: int| 0 <= j < i ==> self@[j] == base@[j],
            decreases base.components.len() - i,
        {
            if !same(self.components[i].as_str(), base.components[i].as_str()) {
                assert(self@.subrange(0, base@.len() as int)[i as int] != base@[i as int]);
                return false;
            }
            assert(self@[i as int] == base@[i as int]);
            i = i + 1;
        }
        assert(base@ =~= self@.subrange(0, base@.len() as int));
        true
    }
}

impl LocalPath {
    pub fn text(&self, separator: &str) -> (r: String)
        ensures
            r@ == path_text(self@, separator@),
    {
        let mut r = String::new();
        let mut i: usize = 0;
        assert(self@.take(0) == Seq::<Seq<char>>::empty());
        while i < self.components.len()
            invariant
                i <= self.components.len(),
                r@ == path_text(self@.take(i as int), separator@),
            decreases self.components.len() - i,
        {
            let part = self.components[i].as_str();
            let ghost next = self@.take(i + 1);
            assert(next.drop_last() == self@.take(i as int));
            assert(next.last() == part@);
            if same(part, "/") {
                r = concat2(r.as_str(), separator);
            } else if i == 0 || same(self.components[i - 1].as_str(), "/") {
                r = concat2(r.as_str(), part);
            } else {
                r = concat3(r.as_str(), separator, part);
            }
            i = i + 1;
        }
        assert(self@.take(self@.len() as int) == self@);
        r
    }

    /// The path with more components behind it.
    pub fn joined_with(&self, more: &[&str]) -> (r: LocalPath)
        ensures
            r@ == self@ + Seq::new(more@.len(), |i: int| more@[i]@),
    {
        let mut r = self.duplicate();
        let mut i: usize = 0;
        while i < more.len()
            invariant
                i <= more.len(),
                r@ == self@ + Seq::new(i as nat, |k: int| more@[k]@),
            decreases more.len() - i,
        {
            let ghost before = r.components@;
            r.components.push(more[i].to_string());
            assert(texts(r.components@) == texts(before).push(more@[i as int]@));
            assert(r@ =~= self@ + Seq::new((i + 1) as nat, |k: int| more@[k]@));
            i = i + 1;
        }
        r
    }
}

/// The extension of a file name.
pub fn extension(name: &str) -> (r: Option<&str>)
    ensures
        match r {
            Some(ext) => extension_of(name@) == Some(ext@),
            None => extension_of(name@) is None,
        },
{
    let at: usize = find_behind_last(name, '.');
    if at <= 1 {
        None
    } else {
        let total: usize = name.unicode_len();
        let ext = name.substring_char(at, total);
        assert(ext@ == name@.skip(at as int));
        Some(ext)
    }
}

/// A path ends in a name unless its last component is the root or one of the two dotted ones.
pub proof fn law_last_names_are_file_names(front: Seq<Seq<char>>, name: Seq<char>)
    ensures
        name != seq!['/'] && name != seq!['.', '.'] && name != seq!['.'] ==> file_name_of(
            front.push(name),
        ) == Some(name),
        file_name_of(front.push(seq!['/'])) is None,
        file_name_of(front.push(seq!['.', '.'])) is None,
        file_name_of(front.push(seq!['.'])) is None,
        file_name_of(Seq::empty()) is None,
{
    reveal_strlit("/");
    reveal_strlit("..");
    reveal_strlit(".");
    assert("/"@ =~= seq!['/']);
    assert(".."@ =~= seq!['.', '.']);
    assert("."@ =~= seq!['.']);
}

/// The parent of a path is what it was before its last component was added; the root and the
/// empty path have none.
pub proof fn law_parents_lack_the_last_component(front: Seq<Seq<char>>, name: Seq<char>)
    ensures
        name != seq!['/'] ==> parent_of(front.push(name)) == Some(front),
        parent_of(front.push(seq!['/'])) is None,
        parent_of(Seq::empty()) is None,
{
    reveal_strlit("/");
    assert("/"@ =~= seq!['/']);
    assert(front.push(name).drop_last() =~= front);
}

/// The extension is what stands behind the last dot; the dot that a name starts with starts no
/// extension.
pub proof fn law_extensions_follow_the_last_dot(stem: Seq<char>, ext: Seq<char>)
    requires
        !ext.contains('.'),
    ensures
        stem.len() > 0 ==> extension_of(stem.push('.') + ext) == Some(ext),
        extension_of(seq!['.'] + ext) is None,
        extension_of(ext) is None,
{
    let name = stem.push('.') + ext;
    assert forall|j: int| 0 <= j < ext.len() implies ext[j] != '.' by {
        assert(ext.contains(ext[j]));
    }
    assert forall|j: int| stem.len() + 1 <= j < name.len() implies name[j] != '.' by {
        assert(name[j] == ext[j - stem.len() - 1]);
    }
    crate::text::lemma_behind_last(name, '.', stem.len() as int + 1);
    assert(name.skip(stem.len() as int + 1) =~= ext);
    let hidden = seq!['.'] + ext;
    assert forall|j: int| 1 <= j < hidden.len() implies hidden[j] != '.' by {
        assert(hidden[j] == ext[j - 1]);
    }
    crate::text::lemma_behind_last(hidden, '.', 1);
    crate::text::lemma_behind_last(ext, '.', 0);
}

/// A path is written component by component: the root as a separator, a name behind the root or
/// at the start as it is, and a name behind a name with a separator between them.
pub proof fn law_paths_are_written_in_order(
    front: Seq<Seq<char>>,
    name: Seq<char>,
    separator: Seq<char>,
)
    ensures
        path_text(Seq::empty(), separator).len() == 0,
        path_text(front.push(seq!['/']), separator) == path_text(front, separator) + separator,
        name != seq!['/'] && (front.len() == 0 || front.last() == seq!['/']) ==> path_text(
            front.push(name),
            separator,
        ) == path_text(front, separator) + name,
        name != seq!['/'] && front.len() > 0 && front.last() != seq!['/'] ==> path_text(
            front.push(name),
            separator,
        ) == path_text(front, separator) + separator + name,
{
    reveal_strlit("/");
    assert("/"@ =~= seq!['/']);
    assert(front.push(name).drop_last() =~= front);
    assert(front.push(seq!['/']).drop_last() =~= front);
}

} // verus!
