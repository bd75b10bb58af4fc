//! The arrangement of the open documents on the screen.
//!
//! A layout is a tree. Its leaves, the atoms, are lists of documents of which one is shown, and a
//! split sets several layouts side by side or one below the other. An atom is found by its path:
//! the number of the branch to take at each split.
use crate::container::FileContainer;
use crate::layout_laws::law_place;
use vstd::prelude::*;

verus! {

/// How the parts of a split are arranged.
#[derive(Debug, Clone, Copy, PartialEq, Eq, Structural)]
pub enum Direction {
    /// From left to right.
    SideBySide,
    /// From top to bottom.
    TopToBottom,
}

/// The arrangement of the open documents.
pub enum FileLayout {
    /// Several layouts next to each other.
    Split(Direction, Vec<FileLayout>),
    /// A list of documents and the number of the one that is shown.
    Atom(Vec<FileContainer>, usize),
    /// Nothing.
    Empty,
}

/// A layout as a mathematical tree.
#[verifier::ext_equal]
pub enum LayoutView {
    /// Several layouts next to each other.
    Split(Direction, Seq<LayoutView>),
    /// A list of documents and the number of the one that is shown.
    Atom(Seq<FileContainer>, usize),
    /// Nothing.
    Empty,
}

/// The number of the first document whose file has this absolute path.
pub open spec fn first_with_path(files: Seq<FileContainer>, path: Seq<char>) -> Option<int>
    decreases files.len(),
{
    if files.len() == 0 {
        None
    } else {
        match first_with_path(files.drop_last(), path) {
            Some(i) => Some(i),
            None => if files.last()@.path == Some(path) {
                Some(files.len() - 1)
            } else {
                None
            },
        }
    }
}

/// Where a document stands that was found in branch `i` of a split, if one was found.
pub open spec fn under_branch(i: int, found: Option<(Seq<usize>, int)>) -> Option<
    (Seq<usize>, int),
> {
    match found {
        Some((path, ptr)) => Some((seq![i as usize] + path, ptr)),
        None => None,
    }
}

impl FileLayout {
    /// The tree.
    pub open spec fn view(self) -> LayoutView
        decreases self,
    {
        match self {
            FileLayout::Split(direction, parts) => LayoutView::Split(
                direction,
                Seq::new(
                    parts@.len(),
                    |i: int|
                        if 0 <= i < parts@.len() {
                            parts@[i].view()
                        } else {
                            LayoutView::Empty
                        },
                ),
            ),
            FileLayout::Atom(files, ptr) => LayoutView::Atom(files@, ptr),
            FileLayout::Empty => LayoutView::Empty,
        }
    }
}

impl LayoutView {
    /// The atom at the path: its documents, and the number of the one that is shown.
    pub open spec fn atom_at(self, path: Seq<usize>) -> Option<(Seq<FileContainer>, usize)>
        decreases path.len(),
    {
        match self {
            LayoutView::Split(_, parts) => if path.len() > 0 && path[0] < parts.len() {
                parts[path[0] as int].atom_at(path.drop_first())
            } else {
                None
            },
            LayoutView::Atom(files, ptr) => if path.len() == 0 {
                Some((files, ptr))
            } else {
                None
            },
            LayoutView::Empty => None,
        }
    }

    /// The layout with another atom at the path.
    pub open spec fn with_atom(
        self,
        path: Seq<usize>,
        files: Seq<FileContainer>,
        ptr: usize,
    ) -> Self
        decreases path.len(),
    {
        match self {
            LayoutView::Split(direction, parts) => if path.len() > 0 && path[0] < parts.len() {
                LayoutView::Split(
                    direction,
                    parts.update(
                        path[0] as int,
                        parts[path[0] as int].with_atom(path.drop_first(), files, ptr),
                    ),
                )
            } else {
                self
            },
            LayoutView::Atom(_, _) => if path.len() == 0 {
                LayoutView::Atom(files, ptr)
            } else {
                self
            },
            LayoutView::Empty => self,
        }
    }

    /// The document that is shown in the atom at the path.
    pub open spec fn shown_at(self, path: Seq<usize>) -> Option<FileContainer> {
        match self.atom_at(path) {
            Some((files, ptr)) => if ptr < files.len() {
                Some(files[ptr as int])
            } else {
                None
            },
            None => None,
        }
    }

    /// The layout with another document in place of the one that is shown at the path.
    pub open spec fn with_shown(self, path: Seq<usize>, file: FileContainer) -> Self {
        match self.atom_at(path) {
            Some((files, ptr)) => self.with_atom(path, files.update(ptr as int, file), ptr),
            None => self,
        }
    }

    /// All documents, in the order in which they stand in the layout.
    pub open spec fn files(self) -> Seq<FileContainer>
        decreases self,
    {
        match self {
            LayoutView::Split(_, parts) => Self::files_of(parts),
            LayoutView::Atom(files, _) => files,
            LayoutView::Empty => Seq::empty(),
        }
    }

    /// All documents of several layouts.
    pub open spec fn files_of(parts: Seq<LayoutView>) -> Seq<FileContainer>
        decreases parts,
    {
        if parts.len() == 0 {
            Seq::empty()
        } else {
            Self::files_of(parts.drop_last()) + parts.last().files()
        }
    }

    /// Whether every atom shows one of its documents, where it has any.
    pub open spec fn wf(self) -> bool
        decreases self,
    {
        match self {
            LayoutView::Split(_, parts) => forall|i: int|
                0 <= i < parts.len() ==> (#[trigger] parts[i]).wf(),
            LayoutView::Atom(files, ptr) => ptr < files.len() || ptr == 0,
            LayoutView::Empty => true,
        }
    }

    /// Where the first document whose file has this absolute path stands: the path of its atom
    /// and its number there.
    pub open spec fn find(self, path: Seq<char>) -> Option<(Seq<usize>, int)>
        decreases self,
    {
        match self {
            LayoutView::Split(_, parts) => Self::find_in(parts, path),
            LayoutView::Atom(files, _) => match first_with_path(files, path) {
                Some(i) => Some((Seq::empty(), i)),
                None => None,
            },
            LayoutView::Empty => None,
        }
    }

    /// [`LayoutView::find`] over the parts of a split.
    pub open spec fn find_in(parts: Seq<LayoutView>, path: Seq<char>) -> Option<(Seq<usize>, int)>
        decreases parts,
    {
        if parts.len() == 0 {
            None
        } else {
            match Self::find_in(parts.drop_last(), path) {
                Some(found) => Some(found),
                None => under_branch(parts.len() - 1, parts.last().find(path)),
            }
        }
    }

    /// Where the document with the number `n` among all documents stands: the path of its atom and
    /// its number there.
    pub open spec fn place(self, n: int) -> Option<(Seq<usize>, int)>
        decreases self,
    {
        match self {
            LayoutView::Split(_, parts) => Self::place_in(parts, n),
            LayoutView::Atom(files, _) => if 0 <= n < files.len() {
                Some((Seq::empty(), n))
            } else {
                None
            },
            LayoutView::Empty => None,
        }
    }

    /// [`LayoutView::place`] over the parts of a split.
    pub open spec fn place_in(parts: Seq<LayoutView>, n: int) -> Option<(Seq<usize>, int)>
        decreases parts,
    {
        if parts.len() == 0 {
            None
        } else {
            let earlier = Self::files_of(parts.drop_last()).len();
            if n < earlier {
                Self::place_in(parts.drop_last(), n)
            } else {
                under_branch(parts.len() - 1, parts.last().place(n - earlier))
            }
        }
    }

    /// The layout with another document in place of the one with the number `n` among all.
    pub open spec fn with_file(self, n: int, file: FileContainer) -> Self {
        match self.place(n) {
            Some((path, i)) => match self.atom_at(path) {
                Some((files, ptr)) => self.with_atom(path, files.update(i, file), ptr),
                None => self,
            },
            None => self,
        }
    }

    /// The layout without empty atoms, without splits of fewer than two parts and without empty
    /// parts.
    pub open spec fn pruned(self) -> Self
        decreases self,
    {
        match self {
            LayoutView::Split(direction, parts) => {
                let kept = Self::kept(parts);
                if kept.len() == 0 {
                    LayoutView::Empty
                } else if kept.len() == 1 {
                    kept[0]
                } else {
                    LayoutView::Split(direction, kept)
                }
            },
            LayoutView::Atom(files, _) => if files.len() == 0 {
                LayoutView::Empty
            } else {
                self
            },
            LayoutView::Empty => self,
        }
    }

    /// What is left of the parts of a split once each is pruned.
    pub open spec fn kept(parts: Seq<LayoutView>) -> Seq<LayoutView>
        decreases parts,
    {
        if parts.len() == 0 {
            Seq::empty()
        } else {
            let last = parts.last().pruned();
            if last is Empty {
                Self::kept(parts.drop_last())
            } else {
                Self::kept(parts.drop_last()).push(last)
            }
        }
    }

    /// Whether there is nothing to prune.
    pub open spec fn tidy(self) -> bool
        decreases self,
    {
        match self {
            LayoutView::Split(_, parts) => {
                &&& parts.len() >= 2
                &&& forall|i: int|
                    0 <= i < parts.len() ==> (#[trigger] parts[i]).tidy() && !(parts[i] is Empty)
            },
            LayoutView::Atom(files, _) => files.len() > 0,
            LayoutView::Empty => true,
        }
    }

    /// The path of an atom as close to `old` as there is one: it follows `old` as far as the
    /// layout does, and takes the first branch from there on.
    pub open spec fn settled(self, old: Seq<usize>) -> Seq<usize>
        decreases self,
    {
        match self {
            LayoutView::Split(_, parts) => if parts.len() == 0 {
                Seq::empty()
            } else if old.len() > 0 && old[0] < parts.len() {
                seq![old[0]] + parts[old[0] as int].settled(old.drop_first())
            } else {
                seq![0usize] + parts[0].settled(Seq::empty())
            },
            _ => Seq::empty(),
        }
    }
}

impl FileLayout {
    /// The atom at the part of the path that starts at `depth`.
    fn atom_from(&self, path: &Vec<usize>, depth: usize) -> (atom: Option<
        (&Vec<FileContainer>, usize),
    >)
        requires
            depth <= path.len(),
        ensures
            match atom {
                Some((files, ptr)) => self@.atom_at(path@.skip(depth as int)) == Some(
                    (files@, ptr),
                ),
                None => self@.atom_at(path@.skip(depth as int)) is None,
            },
        decreases path.len() - depth,
    {
        match self {
            FileLayout::Split(_, parts) => {
                if depth < path.len() && path[depth] < parts.len() {
                    assert(path@.skip(depth as int).drop_first() =~= path@.skip(depth + 1));
                    parts[path[depth]].atom_from(path, depth + 1)
                } else {
                    None
                }
            },
            FileLayout::Atom(files, ptr) => if depth == path.len() {
                Some((files, *ptr))
            } else {
                None
            },
            FileLayout::Empty => None,
        }
    }

    /// The atom at the path: its documents, and the number of the one that is shown.
    pub fn get_atom(&self, path: &Vec<usize>) -> (atom: Option<(&Vec<FileContainer>, usize)>)
        ensures
            match atom {
                Some((files, ptr)) => self@.atom_at(path@) == Some((files@, ptr)),
                None => self@.atom_at(path@) is None,
            },
    {
        assert(path@.skip(0) =~= path@);
        self.atom_from(path, 0)
    }

    /// The atom at the part of the path that starts at `depth`, to be changed.
    fn atom_from_mut(&mut self, path: &Vec<usize>, depth: usize) -> (atom: Option<
        (&mut Vec<FileContainer>, &mut usize),
    >)
        requires
            depth <= path.len(),
        ensures
            match atom {
                Some((files, ptr)) => {
                    &&& old(self)@.atom_at(path@.skip(depth as int)) == Some((files@, *ptr))
                    &&& final(self)@ == old(self)@.with_atom(
                        path@.skip(depth as int),
                        final(files)@,
                        *final(ptr),
                    )
                },
                None => {
                    &&& old(self)@.atom_at(path@.skip(depth as int)) is None
                    &&& final(self)@ == old(self)@
                },
            },
        decreases path.len() - depth,
    {
        match self {
            FileLayout::Split(direction, parts) => {
                if depth < path.len() && path[depth] < parts.len() {
                    let branch: usize = path[depth];
                    let ghost layouts = parts@;
                    let ghost way = *direction;
                    let ghost trees = FileLayout::Split(way, *parts)@->Split_1;
                    proof {
                        assert(path@.skip(depth as int).drop_first() =~= path@.skip(depth + 1));
                        assert forall|changed: Vec<FileLayout>, part: FileLayout|
                            changed@ == #[trigger] layouts.update(
                                branch as int,
                                part,
                            ) implies (#[trigger] FileLayout::Split(way, changed).view())
                            == LayoutView::Split(way, trees.update(branch as int, part@)) by {
                            assert(FileLayout::Split(way, changed)@->Split_1 =~= trees.update(
                                branch as int,
                                part@,
                            ));
                        }
                        assert(trees.update(branch as int, trees[branch as int]) =~= trees);
                    }
                    match parts[branch].atom_from_mut(path, depth + 1) {
                        Some((files, ptr)) => Some((files, ptr)),
                        None => None,
                    }
                } else {
                    None
                }
            },
            FileLayout::Atom(files, ptr) => if depth == path.len() {
                Some((files, ptr))
            } else {
                None
            },
            FileLayout::Empty => None,
        }
    }

    /// The atom at the path, to be changed.
    pub fn get_atom_mut(&mut self, path: &Vec<usize>) -> (atom: Option<
        (&mut Vec<FileContainer>, &mut usize),
    >)
        ensures
            match atom {
                Some((files, ptr)) => {
                    &&& old(self)@.atom_at(path@) == Some((files@, *ptr))
                    &&& final(self)@ == old(self)@.with_atom(path@, final(files)@, *final(ptr))
                },
                None => old(self)@.atom_at(path@) is None && final(self)@ == old(self)@,
            },
    {
        assert(path@.skip(0) =~= path@);
        self.atom_from_mut(path, 0)
    }

    /// The document that is shown at the path.
    pub fn get(&self, path: &Vec<usize>) -> (file: Option<&FileContainer>)
        ensures
            match file {
                Some(file) => self@.shown_at(path@) == Some(*file),
                None => self@.shown_at(path@) is None,
            },
    {
        match self.get_atom(path) {
            Some((files, ptr)) => if ptr < files.len() {
                Some(&files[ptr])
            } else {
                None
            },
            None => None,
        }
    }

    /// The document that is shown at the path, to be changed.
    pub fn get_mut(&mut self, path: &Vec<usize>) -> (file: Option<&mut FileContainer>)
        ensures
            match file {
                Some(file) => {
                    &&& old(self)@.shown_at(path@) == Some(*file)
                    &&& final(self)@ == old(self)@.with_shown(path@, *final(file))
                },
                None => old(self)@.shown_at(path@) is None && final(self)@ == old(self)@,
            },
    {
        proof {
            lemma_with_same_atom(self@, path@);
        }
        match self.get_atom_mut(path) {
            Some((files, ptr)) => if *ptr < files.len() {
                Some(&mut files[*ptr])
            } else {
                None
            },
            None => None,
        }
    }

    /// The number of documents, or the largest machine integer if there are more.
    pub fn len(&self) -> (len: usize)
        ensures
            len == if self@.files().len() <= usize::MAX {
                self@.files().len() as int
            } else {
                usize::MAX as int
            },
        decreases self,
    {
        match self {
            FileLayout::Split(_, parts) => {
                let ghost trees = self@->Split_1;
                let mut len: usize = 0;
                let mut i: usize = 0;
                while i < parts.len()
                    invariant
                        i <= parts.len(),
                        *self == FileLayout::Split(self->Split_0, *parts),
                        trees == self@->Split_1,
                        len == if LayoutView::files_of(trees.take(i as int)).len() <= usize::MAX {
                            LayoutView::files_of(trees.take(i as int)).len() as int
                        } else {
                            usize::MAX as int
                        },
                    decreases parts.len() - i,
                {
                    assert(trees.take(i + 1).drop_last() =~= trees.take(i as int));
                    assert(trees.take(i + 1).last() == parts[i as int]@);
                    len = len.saturating_add(parts[i].len());
                    i = i + 1;
                }
                assert(trees.take(i as int) =~= trees);
                len
            },
            FileLayout::Atom(files, _) => files.len(),
            FileLayout::Empty => 0,
        }
    }

    /// Whether every atom shows one of its documents, where it has any.
    pub fn is_well_formed(&self) -> (wf: bool)
        ensures
            wf == self@.wf(),
        decreases self,
    {
        match self {
            FileLayout::Split(_, parts) => {
                let ghost trees = self@->Split_1;
                let mut i: usize = 0;
                while i < parts.len()
                    invariant
                        i <= parts.len(),
                        *self == FileLayout::Split(self->Split_0, *parts),
                        trees == self@->Split_1,
                        forall|j: int| 0 <= j < i ==> (#[trigger] trees[j]).wf(),
                    decreases parts.len() - i,
                {
                    assert(trees[i as int] == parts[i as int]@);
                    if !parts[i].is_well_formed() {
                        return false;
                    }
                    i = i + 1;
                }
                true
            },
            FileLayout::Atom(files, ptr) => *ptr < files.len() || *ptr == 0,
            FileLayout::Empty => true,
        }
    }

    /// Where the document with the number `n` among all stands: the path of its atom, behind the
    /// path `idx` of this layout, and its number there. If there are not that many, by how many
    /// the number is too large.
    fn locate(&self, idx: Vec<usize>, n: usize) -> (found: Result<(Vec<usize>, usize), usize>)
        ensures
            match found {
                Ok((at, i)) => {
                    &&& n < self@.files().len()
                    &&& self@.place(n as int) matches Some((rest, j))
                    &&& at@ == idx@ + rest
                    &&& i == j
                },
                Err(excess) => excess == n - self@.files().len(),
            },
        decreases self,
    {
        match self {
            FileLayout::Split(_, parts) => {
                let ghost trees = self@->Split_1;
                let mut left: usize = n;
                let mut i: usize = 0;
                while i < parts.len()
                    invariant
                        i <= parts.len(),
                        *self == FileLayout::Split(self->Split_0, *parts),
                        trees == self@->Split_1,
                        left == n - LayoutView::files_of(trees.take(i as int)).len(),
                    decreases parts.len() - i,
                {
                    assert(trees.take(i + 1).drop_last() =~= trees.take(i as int));
                    assert(trees.take(i + 1).last() == parts[i as int]@);
                    let mut branch: Vec<usize> = idx.clone();
                    assert(branch@ =~= idx@);
                    branch.push(i);
                    match parts[i].locate(branch, left) {
                        Ok((at, j)) => {
                            proof {
                                lemma_place_in_prefix(trees, n as int, i + 1);
                                let place = LayoutView::place_in(trees.take(i + 1), n as int);
                                assert(at@ =~= idx@ + place.unwrap().0);
                            }
                            return Ok((at, j));
                        },
                        Err(excess) => {
                            left = excess;
                        },
                    }
                    i = i + 1;
                }
                assert(trees.take(i as int) =~= trees);
                Err(left)
            },
            FileLayout::Atom(files, _) => if n < files.len() {
                assert(idx@ + Seq::<usize>::empty() =~= idx@);
                Ok((idx, n))
            } else {
                Err(n - files.len())
            },
            FileLayout::Empty => Err(n),
        }
    }

    /// The document with the number `n` among all, to be changed.
    pub fn get_nth_mut(&mut self, n: usize) -> (file: Option<&mut FileContainer>)
        ensures
            match file {
                Some(file) => {
                    &&& n < old(self)@.files().len()
                    &&& *file == old(self)@.files()[n as int]
                    &&& final(self)@ == old(self)@.with_file(n as int, *final(file))
                },
                None => n >= old(self)@.files().len() && final(self)@ == old(self)@,
            },
    {
        proof {
            law_place(*self, n as int);
        }
        match self.locate(Vec::new(), n) {
            Ok((at, i)) => {
                proof {
                    let (path, _) = self@.place(n as int).unwrap();
                    assert(Seq::<usize>::empty() + path =~= path);
                }
                match self.get_atom_mut(&at) {
                    Some((files, _)) => Some(&mut files[i]),
                    None => None,
                }
            },
            Err(_) => None,
        }
    }

    /// Where the first document whose file has this absolute path stands: the path of its atom,
    /// behind the path `idx` of this layout, and its number there.
    pub fn find(&self, idx: Vec<usize>, path: &str) -> (found: Option<(Vec<usize>, usize)>)
        ensures
            match (found, self@.find(path@)) {
                (Some((at, ptr)), Some((rest, i))) => at@ == idx@ + rest && ptr == i,
                (None, None) => true,
                _ => false,
            },
        decreases self,
    {
        match self {
            FileLayout::Split(_, parts) => {
                let ghost trees = self@->Split_1;
                let mut i: usize = 0;
                while i < parts.len()
                    invariant
                        i <= parts.len(),
                        *self == FileLayout::Split(self->Split_0, *parts),
                        trees == self@->Split_1,
                        LayoutView::find_in(trees.take(i as int), path@) is None,
                    decreases parts.len() - i,
                {
                    assert(trees.take(i + 1).drop_last() =~= trees.take(i as int));
                    assert(trees.take(i + 1).last() == parts[i as int]@);
                    let mut branch: Vec<usize> = idx.clone();
                    assert(branch@ =~= idx@);
                    branch.push(i);
                    match parts[i].find(branch, path) {
                        Some((at, ptr)) => {
                            proof {
                                lemma_find_in_prefix(trees, path@, i + 1);
                                let found = LayoutView::find_in(trees.take(i + 1), path@).unwrap();
                                assert(at@ =~= idx@ + found.0);
                            }
                            return Some((at, ptr));
                        },
                        None => {},
                    }
                    i = i + 1;
                }
                assert(trees.take(i as int) =~= trees);
                None
            },
            FileLayout::Atom(files, _) => {
                let mut i: usize = 0;
                while i < files.len()
                    invariant
                        i <= files.len(),
                        *self == FileLayout::Atom(*files, self->Atom_1),
                        first_with_path(files@.take(i as int), path@) is None,
                    decreases files.len() - i,
                {
                    assert(files@.take(i + 1).drop_last() =~= files@.take(i as int));
                    if has_path(&files[i], path) {
                        proof {
                            lemma_first_with_path_prefix(files@, path@, i + 1);
                            assert(idx@ + Seq::<usize>::empty() =~= idx@);
                        }
                        return Some((idx, i));
                    }
                    i = i + 1;
                }
                assert(files@.take(i as int) =~= files@);
                None
            },
            FileLayout::Empty => None,
        }
    }

    /// Shows the document with the number `ptr` in the atom at the path.
    pub fn move_to(&mut self, path: &Vec<usize>, ptr: usize)
        ensures
            final(self)@ == match old(self)@.atom_at(path@) {
                Some((files, _)) => old(self)@.with_atom(path@, files, ptr),
                None => old(self)@,
            },
    {
        match self.get_atom_mut(path) {
            Some((_, at)) => {
                *at = ptr;
            },
            None => {},
        }
    }

    /// The layout without empty atoms, without splits of fewer than two parts and without empty
    /// parts.
    fn into_pruned(self) -> (pruned: Self)
        ensures
            pruned@ == self@.pruned(),
        decreases self,
    {
        match self {
            FileLayout::Split(direction, parts) => {
                let ghost layouts = parts@;
                let ghost trees = self@->Split_1;
                let mut kept: Vec<FileLayout> = Vec::new();
                let mut rest: Vec<FileLayout> = parts;
                let ghost mut done: int = 0;
                let ghost mut views: Seq<LayoutView> = Seq::empty();
                while rest.len() > 0
                    invariant
                        0 <= done <= layouts.len(),
                        rest@ == layouts.skip(done),
                        layouts == (self->Split_1)@,
                        self is Split,
                        trees == self@->Split_1,
                        views == LayoutView::kept(trees.take(done)),
                        views.len() == kept.len(),
                        forall|i: int| 0 <= i < kept.len() ==> (#[trigger] kept[i])@ == views[i],
                    decreases rest.len(),
                {
                    let part: FileLayout = rest.remove(0);
                    assert(part == layouts[done]);
                    assert(decreases_to!(self => layouts[done]));
                    proof {
                        assert(trees.take(done + 1).drop_last() =~= trees.take(done));
                        assert(trees.take(done + 1).last() == part@);
                    }
                    let part: FileLayout = part.into_pruned();
                    match part {
                        FileLayout::Empty => {},
                        _ => {
                            proof {
                                views = views.push(part@);
                            }
                            kept.push(part);
                        },
                    }
                    proof {
                        done = done + 1;
                        assert(rest@ =~= layouts.skip(done));
                    }
                }
                assert(trees.take(done) =~= trees);
                if kept.len() == 0 {
                    FileLayout::Empty
                } else if kept.len() == 1 {
                    kept.remove(0)
                } else {
                    let pruned: FileLayout = FileLayout::Split(direction, kept);
                    assert(pruned@->Split_1 =~= views);
                    pruned
                }
            },
            FileLayout::Atom(files, ptr) => if files.len() == 0 {
                FileLayout::Empty
            } else {
                FileLayout::Atom(files, ptr)
            },
            FileLayout::Empty => FileLayout::Empty,
        }
    }

    /// Takes out empty atoms, and the splits that are no longer needed then.
    pub fn clean_up(&mut self)
        ensures
            final(self)@ == old(self)@.pruned(),
    {
        let mut layout: FileLayout = FileLayout::Empty;
        core::mem::swap(self, &mut layout);
        *self = layout.into_pruned();
    }

    /// Extends `at`, the path of this layout, to the atom that is as close as there is one to the
    /// part of the path `wish` that starts at `depth`.
    fn settle(&self, wish: &Vec<usize>, depth: usize, at: Vec<usize>) -> (path: Vec<usize>)
        requires
            depth <= wish.len(),
        ensures
            path@ == at@ + self@.settled(wish@.skip(depth as int)),
        decreases self,
    {
        match self {
            FileLayout::Split(_, parts) => {
                let ghost tail = wish@.skip(depth as int);
                if parts.len() == 0 {
                    assert(at@ + self@.settled(tail) =~= at@);
                    at
                } else {
                    let mut path: Vec<usize> = at;
                    if depth < wish.len() && wish[depth] < parts.len() {
                        let branch: usize = wish[depth];
                        assert(tail.drop_first() =~= wish@.skip(depth + 1));
                        path.push(branch);
                        let path: Vec<usize> = parts[branch].settle(wish, depth + 1, path);
                        assert(path@ =~= at@ + self@.settled(tail));
                        path
                    } else {
                        path.push(0);
                        assert(wish@.skip(wish@.len() as int) =~= Seq::<usize>::empty());
                        let path: Vec<usize> = parts[0].settle(wish, wish.len(), path);
                        assert(path@ =~= at@ + self@.settled(tail));
                        path
                    }
                }
            },
            _ => {
                assert(at@ + Seq::<usize>::empty() =~= at@);
                at
            },
        }
    }

    /// The path of an atom as close to `old` as there is one.
    pub fn new_pointer_position(&self, old: &Vec<usize>) -> (path: Vec<usize>)
        ensures
            path@ == self@.settled(old@),
    {
        assert(old@.skip(0) =~= old@);
        let path: Vec<usize> = self.settle(old, 0, Vec::new());
        assert(Seq::<usize>::empty() + self@.settled(old@) =~= self@.settled(old@));
        path
    }
}

/// Whether the file of the document has this absolute path.
fn has_path(file: &FileContainer, path: &str) -> (same: bool)
    ensures
        same == (file@.path == Some(path@)),
{
    match &file.path {
        Some(own) => *own == path.to_owned(),
        None => false,
    }
}

/// Putting back what stands at a path changes nothing.
pub proof fn lemma_with_same_atom(layout: LayoutView, path: Seq<usize>)
    ensures
        layout.atom_at(path) matches Some((files, ptr)) ==> layout.with_atom(path, files, ptr)
            == layout,
    decreases path.len(),
{
    if let LayoutView::Split(_, parts) = layout {
        if path.len() > 0 && path[0] < parts.len() {
            lemma_with_same_atom(parts[path[0] as int], path.drop_first());
            assert(parts.update(path[0] as int, parts[path[0] as int]) =~= parts);
        }
    }
}

/// The documents of the first parts come first, in the same places.
proof fn lemma_place_in_prefix(parts: Seq<LayoutView>, n: int, count: int)
    requires
        0 <= count <= parts.len(),
        n < LayoutView::files_of(parts.take(count)).len(),
    ensures
        n < LayoutView::files_of(parts).len(),
        LayoutView::place_in(parts, n) == LayoutView::place_in(parts.take(count), n),
    decreases parts.len() - count,
{
    if count < parts.len() {
        assert(parts.take(count + 1).drop_last() =~= parts.take(count));
        lemma_place_in_prefix(parts, n, count + 1);
    } else {
        assert(parts.take(count) =~= parts);
    }
}

/// The first document found in some parts is the first found in all.
proof fn lemma_find_in_prefix(parts: Seq<LayoutView>, path: Seq<char>, n: int)
    requires
        0 <= n <= parts.len(),
        LayoutView::find_in(parts.take(n), path) is Some,
    ensures
        LayoutView::find_in(parts, path) == LayoutView::find_in(parts.take(n), path),
    decreases parts.len() - n,
{
    if n < parts.len() {
        assert(parts.take(n + 1).drop_last() =~= parts.take(n));
        lemma_find_in_prefix(parts, path, n + 1);
    } else {
        assert(parts.take(n) =~= parts);
    }
}

/// The first document found at the start of a list is the first found in all of it.
proof fn lemma_first_with_path_prefix(files: Seq<FileContainer>, path: Seq<char>, n: int)
    requires
        0 <= n <= files.len(),
        first_with_path(files.take(n), path) is Some,
    ensures
        first_with_path(files, path) == first_with_path(files.take(n), path),
    decreases files.len() - n,
{
    if n < files.len() {
        assert(files.take(n + 1).drop_last() =~= files.take(n));
        lemma_first_with_path_prefix(files, path, n + 1);
    } else {
        assert(files.take(n) =~= files);
    }
}

} // verus!
