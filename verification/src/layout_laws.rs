//! What holds of every layout.
use crate::container::FileContainer;
use crate::layout::{first_with_path, Direction, FileLayout, LayoutView};
use vstd::prelude::*;

verus! {

impl LayoutView {
    /// The documents that stand before the atom at the path.
    pub open spec fn before(self, path: Seq<usize>) -> Seq<FileContainer>
        decreases path.len(),
    {
        match self {
            LayoutView::Split(_, parts) => if path.len() > 0 && path[0] < parts.len() {
                Self::files_of(parts.take(path[0] as int)) + parts[path[0] as int].before(
                    path.drop_first(),
                )
            } else {
                Seq::empty()
            },
            _ => Seq::empty(),
        }
    }

    /// The documents that stand after the atom at the path.
    pub open spec fn after(self, path: Seq<usize>) -> Seq<FileContainer>
        decreases path.len(),
    {
        match self {
            LayoutView::Split(_, parts) => if path.len() > 0 && path[0] < parts.len() {
                parts[path[0] as int].after(path.drop_first()) + Self::files_of(
                    parts.skip(path[0] + 1),
                )
            } else {
                Seq::empty()
            },
            _ => Seq::empty(),
        }
    }
}

/// An atom that is put in place of another is found there, and no other path leads to anything
/// new.
pub proof fn law_with_atom(
    layout: LayoutView,
    path: Seq<usize>,
    files: Seq<FileContainer>,
    ptr: usize,
    other: Seq<usize>,
)
    requires
        layout.atom_at(path) is Some,
    ensures
        layout.with_atom(path, files, ptr).atom_at(other) == if other == path {
            Some((files, ptr))
        } else {
            layout.atom_at(other)
        },
    decreases path.len(),
{
    match layout {
        LayoutView::Split(_, parts) => {
            if other.len() > 0 && other[0] == path[0] {
                law_with_atom(
                    parts[path[0] as int],
                    path.drop_first(),
                    files,
                    ptr,
                    other.drop_first(),
                );
                if other.drop_first() == path.drop_first() {
                    assert(other =~= seq![other[0]] + other.drop_first());
                    assert(path =~= seq![path[0]] + path.drop_first());
                }
            }
        },
        LayoutView::Atom(_, _) => {
            assert(path =~= Seq::empty());
            if other.len() == 0 {
                assert(other =~= path);
            }
        },
        LayoutView::Empty => {},
    }
}

/// Of two atoms that are put in the same place, the second stays.
pub proof fn law_with_atom_twice(
    layout: LayoutView,
    path: Seq<usize>,
    first: (Seq<FileContainer>, usize),
    second: (Seq<FileContainer>, usize),
)
    ensures
        layout.with_atom(path, first.0, first.1).with_atom(path, second.0, second.1)
            == layout.with_atom(path, second.0, second.1),
    decreases path.len(),
{
    if let LayoutView::Split(_, parts) = layout {
        if path.len() > 0 && path[0] < parts.len() {
            let i = path[0] as int;
            let rest = path.drop_first();
            law_with_atom_twice(parts[i], rest, first, second);
            assert(parts.update(i, parts[i].with_atom(rest, first.0, first.1)).update(
                i,
                parts[i].with_atom(rest, second.0, second.1),
            ) =~= parts.update(i, parts[i].with_atom(rest, second.0, second.1)));
        }
    }
}

/// An atom has no more documents than a machine integer can count.
pub proof fn law_atom_len(layout: FileLayout, path: Seq<usize>)
    ensures
        layout@.atom_at(path) matches Some((files, _)) ==> files.len() <= usize::MAX,
    decreases path.len(),
{
    match layout {
        FileLayout::Split(_, parts) => {
            if path.len() > 0 && path[0] < parts.len() {
                law_atom_len(parts[path[0] as int], path.drop_first());
            }
        },
        FileLayout::Atom(files, _) => {
            assert(files.len() == files@.len());
        },
        FileLayout::Empty => {},
    }
}

/// Every atom of a well-formed layout shows one of its documents, where it has any.
pub proof fn law_atom_shows_a_document(layout: LayoutView, path: Seq<usize>)
    requires
        layout.wf(),
    ensures
        layout.atom_at(path) matches Some((files, ptr)) ==> ptr < files.len() || ptr == 0,
    decreases path.len(),
{
    if let LayoutView::Split(_, parts) = layout {
        if path.len() > 0 && path[0] < parts.len() {
            law_atom_shows_a_document(parts[path[0] as int], path.drop_first());
        }
    }
}

/// A well-formed layout stays so when an atom that shows one of its documents comes into it.
pub proof fn law_with_atom_wf(
    layout: LayoutView,
    path: Seq<usize>,
    files: Seq<FileContainer>,
    ptr: usize,
)
    requires
        layout.wf(),
        ptr < files.len() || ptr == 0,
    ensures
        layout.with_atom(path, files, ptr).wf(),
    decreases path.len(),
{
    if let LayoutView::Split(_, parts) = layout {
        if path.len() > 0 && path[0] < parts.len() {
            law_with_atom_wf(parts[path[0] as int], path.drop_first(), files, ptr);
        }
    }
}

proof fn lemma_files_of_concat(a: Seq<LayoutView>, b: Seq<LayoutView>)
    ensures
        LayoutView::files_of(a + b) == LayoutView::files_of(a) + LayoutView::files_of(b),
    decreases b.len(),
{
    if b.len() == 0 {
        assert(a + b =~= a);
        assert(LayoutView::files_of(a) + LayoutView::files_of(b) =~= LayoutView::files_of(a));
    } else {
        assert((a + b).drop_last() =~= a + b.drop_last());
        assert((a + b).last() == b.last());
        lemma_files_of_concat(a, b.drop_last());
        assert(LayoutView::files_of(a + b) =~= LayoutView::files_of(a) + LayoutView::files_of(b));
    }
}

proof fn lemma_files_of_split(parts: Seq<LayoutView>, i: int)
    requires
        0 <= i < parts.len(),
    ensures
        LayoutView::files_of(parts) == LayoutView::files_of(parts.take(i)) + parts[i].files()
            + LayoutView::files_of(parts.skip(i + 1)),
{
    assert(parts =~= parts.take(i + 1) + parts.skip(i + 1));
    lemma_files_of_concat(parts.take(i + 1), parts.skip(i + 1));
    assert(parts.take(i + 1).drop_last() =~= parts.take(i));
}

/// The documents of a layout are those before an atom, those of the atom and those after it, and
/// putting in another atom exchanges only those of the atom.
pub proof fn law_files_around_atom(
    layout: LayoutView,
    path: Seq<usize>,
    files: Seq<FileContainer>,
    ptr: usize,
)
    ensures
        layout.atom_at(path) matches Some((own, _)) ==> {
            &&& layout.files() == layout.before(path) + own + layout.after(path)
            &&& layout.with_atom(path, files, ptr).files() == layout.before(path) + files
                + layout.after(path)
        },
    decreases path.len(),
{
    match layout {
        LayoutView::Split(_, parts) => {
            if path.len() > 0 && path[0] < parts.len() {
                let i = path[0] as int;
                let rest = path.drop_first();
                law_files_around_atom(parts[i], rest, files, ptr);
                lemma_files_of_split(parts, i);
                let changed = parts.update(i, parts[i].with_atom(rest, files, ptr));
                lemma_files_of_split(changed, i);
                assert(changed.take(i) =~= parts.take(i));
                assert(changed.skip(i + 1) =~= parts.skip(i + 1));
                if let Some((own, _)) = layout.atom_at(path) {
                    assert(layout.files() =~= layout.before(path) + own + layout.after(path));
                    assert(layout.with_atom(path, files, ptr).files() =~= layout.before(path)
                        + files + layout.after(path));
                }
            }
        },
        LayoutView::Atom(own, _) => {
            assert(own =~= Seq::empty() + own + Seq::empty());
            assert(files =~= Seq::empty() + files + Seq::empty());
        },
        LayoutView::Empty => {},
    }
}

/// Pruning loses no document and keeps their order.
pub proof fn law_pruned_keeps_files(layout: LayoutView)
    ensures
        layout.pruned().files() == layout.files(),
    decreases layout,
{
    match layout {
        LayoutView::Split(_, parts) => {
            lemma_kept_keeps_files(parts);
            let kept = LayoutView::kept(parts);
            if kept.len() == 1 {
                reveal_with_fuel(LayoutView::files_of, 2);
                assert(LayoutView::files_of(kept) =~= kept[0].files());
            }
        },
        LayoutView::Atom(files, _) => {
            if files.len() == 0 {
                assert(files =~= Seq::empty());
            }
        },
        LayoutView::Empty => {},
    }
}

proof fn lemma_kept_keeps_files(parts: Seq<LayoutView>)
    ensures
        LayoutView::files_of(LayoutView::kept(parts)) == LayoutView::files_of(parts),
    decreases parts,
{
    if parts.len() > 0 {
        lemma_kept_keeps_files(parts.drop_last());
        law_pruned_keeps_files(parts.last());
        let kept = LayoutView::kept(parts);
        if parts.last().pruned() is Empty {
            assert(LayoutView::files_of(parts) =~= LayoutView::files_of(parts.drop_last()));
        } else {
            assert(kept.drop_last() =~= LayoutView::kept(parts.drop_last()));
        }
    }
}

/// Pruning leaves nothing to prune.
pub proof fn law_pruned_is_tidy(layout: LayoutView)
    ensures
        layout.pruned().tidy(),
    decreases layout,
{
    if let LayoutView::Split(_, parts) = layout {
        lemma_kept_is_tidy(parts);
    }
}

proof fn lemma_kept_is_tidy(parts: Seq<LayoutView>)
    ensures
        forall|i: int|
            0 <= i < LayoutView::kept(parts).len() ==> (#[trigger] LayoutView::kept(
                parts,
            )[i]).tidy() && !(LayoutView::kept(parts)[i] is Empty),
    decreases parts,
{
    if parts.len() > 0 {
        lemma_kept_is_tidy(parts.drop_last());
        law_pruned_is_tidy(parts.last());
    }
}

/// A layout with nothing to prune is what pruning leaves of it.
pub proof fn law_tidy_stays(layout: LayoutView)
    requires
        layout.tidy(),
    ensures
        layout.pruned() == layout,
    decreases layout,
{
    if let LayoutView::Split(_, parts) = layout {
        lemma_tidy_parts_stay(parts);
    }
}

proof fn lemma_tidy_parts_stay(parts: Seq<LayoutView>)
    requires
        forall|i: int|
            0 <= i < parts.len() ==> (#[trigger] parts[i]).tidy() && !(parts[i] is Empty),
    ensures
        LayoutView::kept(parts) == parts,
    decreases parts,
{
    if parts.len() > 0 {
        lemma_tidy_parts_stay(parts.drop_last());
        law_tidy_stays(parts.last());
        assert(parts.drop_last().push(parts.last()) =~= parts);
    }
}

/// Pruning keeps every atom showing one of its documents.
pub proof fn law_pruned_wf(layout: LayoutView)
    requires
        layout.wf(),
    ensures
        layout.pruned().wf(),
    decreases layout,
{
    if let LayoutView::Split(_, parts) = layout {
        lemma_kept_wf(parts);
        let kept = LayoutView::kept(parts);
        assert(forall|i: int| 0 <= i < kept.len() ==> (#[trigger] kept[i]).wf());
        if kept.len() == 1 {
            assert(kept[0].wf());
        }
    }
}

proof fn lemma_kept_wf(parts: Seq<LayoutView>)
    requires
        forall|i: int| 0 <= i < parts.len() ==> (#[trigger] parts[i]).wf(),
    ensures
        forall|i: int|
            0 <= i < LayoutView::kept(parts).len() ==> (#[trigger] LayoutView::kept(
                parts,
            )[i]).wf(),
    decreases parts,
{
    if parts.len() > 0 {
        lemma_kept_wf(parts.drop_last());
        law_pruned_wf(parts.last());
        let kept = LayoutView::kept(parts);
        let earlier = LayoutView::kept(parts.drop_last());
        assert forall|i: int| 0 <= i < kept.len() implies (#[trigger] kept[i]).wf() by {
            if i < earlier.len() {
                assert(kept[i] == earlier[i]);
                assert(earlier[i].wf());
            } else {
                assert(kept[i] == parts.last().pruned());
            }
        }
    }
}

/// Nothing is left after pruning if and only if there was no document.
pub proof fn law_pruned_empty(layout: LayoutView)
    ensures
        layout.pruned() is Empty <==> layout.files().len() == 0,
{
    law_pruned_is_tidy(layout);
    law_pruned_keeps_files(layout);
    lemma_tidy_has_files(layout.pruned());
}

proof fn lemma_tidy_has_files(layout: LayoutView)
    requires
        layout.tidy(),
    ensures
        layout is Empty <==> layout.files().len() == 0,
    decreases layout,
{
    if let LayoutView::Split(_, parts) = layout {
        lemma_tidy_has_files(parts[parts.len() - 1]);
    }
}

/// In a layout with nothing to prune, a settled path leads to an atom, unless the layout is
/// empty.
pub proof fn law_settled_leads_to_atom(layout: LayoutView, old: Seq<usize>)
    requires
        layout.tidy(),
    ensures
        layout is Empty ==> layout.settled(old) == Seq::<usize>::empty(),
        !(layout is Empty) ==> layout.atom_at(layout.settled(old)) is Some,
    decreases layout,
{
    if let LayoutView::Split(_, parts) = layout {
        let (branch, rest) = if old.len() > 0 && old[0] < parts.len() {
            (old[0], old.drop_first())
        } else {
            (0usize, Seq::empty())
        };
        law_settled_leads_to_atom(parts[branch as int], rest);
        assert(layout.settled(old).drop_first() =~= parts[branch as int].settled(rest));
    }
}

/// A path that leads to an atom is settled.
pub proof fn law_settled_keeps_atom(layout: LayoutView, old: Seq<usize>)
    requires
        layout.atom_at(old) is Some,
    ensures
        layout.settled(old) == old,
    decreases old.len(),
{
    match layout {
        LayoutView::Split(_, parts) => {
            law_settled_keeps_atom(parts[old[0] as int], old.drop_first());
            assert(seq![old[0]] + old.drop_first() =~= old);
        },
        _ => {
            assert(old =~= Seq::empty());
        },
    }
}

/// Whether none of the documents belongs to the file with this absolute path.
pub open spec fn none_has_path(files: Seq<FileContainer>, path: Seq<char>) -> bool {
    forall|k: int| 0 <= k < files.len() ==> (#[trigger] files[k])@.path != Some(path)
}

/// Whether the document with the number `i` in the atom at `at` belongs to the file with this
/// absolute path.
pub open spec fn has_path_at(
    layout: LayoutView,
    at: Seq<usize>,
    i: int,
    path: Seq<char>,
) -> bool {
    match layout.atom_at(at) {
        Some((files, _)) => 0 <= i < files.len() && files[i]@.path == Some(path),
        None => false,
    }
}

/// Whether the outcome of looking for a file by its absolute path is right.
pub open spec fn find_is_right(layout: LayoutView, path: Seq<char>) -> bool {
    match layout.find(path) {
        Some((at, i)) => has_path_at(layout, at, i, path),
        None => none_has_path(layout.files(), path),
    }
}

/// Looking for a file by its absolute path finds a document of that file wherever there is one,
/// and tells where it stands.
pub proof fn law_find(layout: FileLayout, path: Seq<char>)
    ensures
        find_is_right(layout@, path),
    decreases layout,
{
    match layout {
        FileLayout::Split(direction, parts) => {
            let trees = layout@->Split_1;
            assert forall|j: int| 0 <= j < trees.len() implies find_is_right(
                #[trigger] trees[j],
                path,
            ) by {
                law_find(parts[j], path);
            }
            assert(parts.len() == trees.len());
            lemma_find_in(trees, path, trees.len() as int);
            assert(trees.take(trees.len() as int) =~= trees);
        },
        FileLayout::Atom(files, _) => {
            lemma_first_with_path(files@, path);
        },
        FileLayout::Empty => {},
    }
}

proof fn lemma_find_in(trees: Seq<LayoutView>, path: Seq<char>, n: int)
    requires
        0 <= n <= trees.len() <= usize::MAX,
        forall|j: int| 0 <= j < trees.len() ==> find_is_right(#[trigger] trees[j], path),
    ensures
        match LayoutView::find_in(trees.take(n), path) {
            Some((at, i)) => {
                &&& 0 < at.len()
                &&& at[0] < n
                &&& has_path_at(trees[at[0] as int], at.drop_first(), i, path)
            },
            None => none_has_path(LayoutView::files_of(trees.take(n)), path),
        },
    decreases n,
{
    if n > 0 {
        lemma_find_in(trees, path, n - 1);
        assert(trees.take(n).drop_last() =~= trees.take(n - 1));
        assert(trees.take(n).last() == trees[n - 1]);
        if LayoutView::find_in(trees.take(n - 1), path) is None {
            if let Some((at, i)) = trees[n - 1].find(path) {
                assert((seq![(n - 1) as usize] + at).drop_first() =~= at);
            }
        }
    }
}

/// Whether the place of the document with the number `n` is right: it is one where there is such a
/// document, and as many documents stand before it as its number says.
pub open spec fn place_is_right(layout: LayoutView, n: int) -> bool {
    match layout.place(n) {
        Some((at, i)) => match layout.atom_at(at) {
            Some((files, _)) => {
                &&& 0 <= i < files.len()
                &&& n == layout.before(at).len() + i
                &&& n < layout.files().len()
                &&& layout.files()[n] == files[i]
            },
            None => false,
        },
        None => !(0 <= n < layout.files().len()),
    }
}

/// Every document has a place, and it is found there.
pub proof fn law_place(layout: FileLayout, n: int)
    ensures
        place_is_right(layout@, n),
    decreases layout,
{
    match layout {
        FileLayout::Split(direction, parts) => {
            let trees = layout@->Split_1;
            assert forall|j: int, m: int| 0 <= j < trees.len() implies #[trigger] place_is_right(
                trees[j],
                m,
            ) by {
                law_place(parts[j], m);
            }
            assert(parts.len() == trees.len());
            lemma_place_in(trees, n, trees.len() as int);
            assert(trees.take(trees.len() as int) =~= trees);
            if let Some((at, i)) = layout@.place(n) {
                let (files, ptr) = layout@.atom_at(at).unwrap();
                law_files_around_atom(layout@, at, files, ptr);
            }
        },
        FileLayout::Atom(files, _) => {},
        FileLayout::Empty => {},
    }
}

proof fn lemma_place_in(trees: Seq<LayoutView>, n: int, count: int)
    requires
        0 <= count <= trees.len() <= usize::MAX,
        forall|j: int, m: int|
            0 <= j < trees.len() ==> #[trigger] place_is_right(trees[j], m),
    ensures
        match LayoutView::place_in(trees.take(count), n) {
            Some((at, i)) => {
                &&& 0 < at.len()
                &&& at[0] < count
                &&& trees[at[0] as int].atom_at(at.drop_first()) matches Some((files, _))
                &&& 0 <= i < files.len()
                &&& n == LayoutView::files_of(trees.take(at[0] as int)).len()
                    + trees[at[0] as int].before(at.drop_first()).len() + i
                &&& n < LayoutView::files_of(trees.take(count)).len()
            },
            None => !(0 <= n < LayoutView::files_of(trees.take(count)).len()),
        },
    decreases count,
{
    if count > 0 {
        lemma_place_in(trees, n, count - 1);
        assert(trees.take(count).drop_last() =~= trees.take(count - 1));
        assert(trees.take(count).last() == trees[count - 1]);
        let earlier = LayoutView::files_of(trees.take(count - 1)).len();
        if n >= earlier {
            assert(place_is_right(trees[count - 1], n - earlier));
            if let Some((at, i)) = trees[count - 1].place(n - earlier) {
                assert((seq![(count - 1) as usize] + at).drop_first() =~= at);
            }
        }
    }
}

/// Putting in another document exchanges that one alone: all others are open as before, in the
/// same order, and every path leads to an atom of the same size that shows the same number.
pub proof fn law_with_file(layout: FileLayout, n: int, file: FileContainer, path: Seq<usize>)
    requires
        0 <= n < layout@.files().len(),
    ensures
        layout@.with_file(n, file).files() == layout@.files().update(n, file),
        layout@.wf() ==> layout@.with_file(n, file).wf(),
        layout@ is Empty <==> layout@.with_file(n, file) is Empty,
        match (layout@.atom_at(path), layout@.with_file(n, file).atom_at(path)) {
            (Some((files, ptr)), Some((now, now_ptr))) => now.len() == files.len() && now_ptr
                == ptr,
            (None, None) => true,
            _ => false,
        },
{
    law_place(layout, n);
    let (at, i) = layout@.place(n).unwrap();
    let (files, ptr) = layout@.atom_at(at).unwrap();
    let changed = files.update(i, file);
    law_files_around_atom(layout@, at, changed, ptr);
    let before = layout@.before(at);
    let after = layout@.after(at);
    assert(before + changed + after =~= (before + files + after).update(n, file));
    if layout@.wf() {
        law_atom_shows_a_document(layout@, at);
        law_with_atom_wf(layout@, at, changed, ptr);
    }
    law_with_atom(layout@, at, changed, ptr, path);
}

proof fn lemma_first_with_path(files: Seq<FileContainer>, path: Seq<char>)
    ensures
        match first_with_path(files, path) {
            Some(i) => 0 <= i < files.len() && files[i]@.path == Some(path),
            None => none_has_path(files, path),
        },
    decreases files.len(),
{
    if files.len() > 0 {
        lemma_first_with_path(files.drop_last(), path);
        if first_with_path(files.drop_last(), path) is None {
            assert forall|k: int|
                0 <= k < files.len() - 1 implies (#[trigger] files[k])@.path != Some(path) by {
                assert(files.drop_last()[k] == files[k]);
            }
        }
    }
}

/// A path leads to an atom exactly if it takes one branch of every split on its way, and ends
/// there.
pub proof fn law_atom_at(
    direction: Direction,
    parts: Seq<LayoutView>,
    files: Seq<FileContainer>,
    ptr: usize,
    path: Seq<usize>,
    branch: usize,
)
    ensures
        LayoutView::Atom(files, ptr).atom_at(Seq::empty()) == Some((files, ptr)),
        path.len() > 0 ==> LayoutView::Atom(files, ptr).atom_at(path) is None,
        LayoutView::Empty.atom_at(path) is None,
        LayoutView::Split(direction, parts).atom_at(Seq::empty()) is None,
        branch < parts.len() ==> LayoutView::Split(direction, parts).atom_at(seq![branch] + path)
            == parts[branch as int].atom_at(path),
        branch >= parts.len() ==> LayoutView::Split(direction, parts).atom_at(seq![branch] + path)
            is None,
{
    assert((seq![branch] + path).drop_first() =~= path);
}

/// The document that is shown at a path is the one that the atom there points to, if it does.
pub proof fn law_shown_at(layout: LayoutView, path: Seq<usize>)
    ensures
        match layout.atom_at(path) {
            Some((files, ptr)) => {
                &&& ptr < files.len() ==> layout.shown_at(path) == Some(files[ptr as int])
                &&& ptr >= files.len() ==> layout.shown_at(path) is None
            },
            None => layout.shown_at(path) is None,
        },
{
}

/// Another document in place of the one that is shown at a path changes that one alone.
pub proof fn law_with_shown(
    layout: LayoutView,
    path: Seq<usize>,
    file: FileContainer,
    other: Seq<usize>,
)
    requires
        layout.shown_at(path) is Some,
    ensures
        layout.with_shown(path, file).shown_at(path) == Some(file),
        match (layout.atom_at(path), layout.with_shown(path, file).atom_at(path)) {
            (Some((files, ptr)), Some((now, now_ptr))) => {
                &&& now_ptr == ptr
                &&& now.len() == files.len()
                &&& now[ptr as int] == file
                &&& forall|i: int|
                    0 <= i < files.len() && i != ptr ==> #[trigger] now[i] == files[i]
            },
            _ => false,
        },
        other != path ==> layout.with_shown(path, file).atom_at(other) == layout.atom_at(other),
{
    let (files, ptr) = layout.atom_at(path).unwrap();
    law_with_atom(layout, path, files.update(ptr as int, file), ptr, path);
    law_with_atom(layout, path, files.update(ptr as int, file), ptr, other);
}

/// The documents of an atom are its list, an empty layout has none, and those of a split are those
/// of its parts, one part after the other.
pub proof fn law_files(
    direction: Direction,
    first: Seq<LayoutView>,
    second: Seq<LayoutView>,
    part: LayoutView,
    files: Seq<FileContainer>,
    ptr: usize,
)
    ensures
        LayoutView::Atom(files, ptr).files() == files,
        LayoutView::Empty.files().len() == 0,
        LayoutView::Split(direction, Seq::empty()).files().len() == 0,
        LayoutView::Split(direction, seq![part]).files() == part.files(),
        LayoutView::Split(direction, first + second).files() == LayoutView::Split(
            direction,
            first,
        ).files() + LayoutView::Split(direction, second).files(),
{
    lemma_files_of_concat(first, second);
    assert(seq![part].drop_last() =~= Seq::<LayoutView>::empty());
    assert(LayoutView::files_of(Seq::<LayoutView>::empty()) =~= Seq::empty());
    assert(LayoutView::files_of(seq![part]) =~= part.files());
}

/// Looking for a file by its absolute path finds the first document of that file: none that stands
/// before it belongs to the file.
pub proof fn law_find_is_first(layout: FileLayout, path: Seq<char>, k: int)
    ensures
        match layout@.find(path) {
            Some((at, i)) => 0 <= k < layout@.before(at).len() + i ==> layout@.files()[k]@.path
                != Some(path),
            None => 0 <= k < layout@.files().len() ==> layout@.files()[k]@.path != Some(path),
        },
    decreases layout,
{
    law_find(layout, path);
    lemma_nothing_before_found(layout, path);
    if let Some((at, i)) = layout@.find(path) {
        let (files, ptr) = layout@.atom_at(at).unwrap();
        law_files_around_atom(layout@, at, files, ptr);
        let before = layout@.before(at);
        if 0 <= k < before.len() {
            assert(layout@.files()[k] == before[k]);
        } else if before.len() <= k < before.len() + i {
            assert(layout@.files()[k] == files[k - before.len()]);
            assert(files.take(i)[k - before.len()] == files[k - before.len()]);
        }
    }
}

/// Whether no document before the one that is found belongs to the file with this absolute path.
spec fn nothing_before_found(layout: LayoutView, path: Seq<char>) -> bool {
    match layout.find(path) {
        Some((at, i)) => match layout.atom_at(at) {
            Some((files, _)) => none_has_path(layout.before(at), path) && none_has_path(
                files.take(i),
                path,
            ),
            None => true,
        },
        None => true,
    }
}

proof fn lemma_nothing_before_found(layout: FileLayout, path: Seq<char>)
    ensures
        nothing_before_found(layout@, path),
    decreases layout,
{
    match layout {
        FileLayout::Split(direction, parts) => {
            let trees = layout@->Split_1;
            assert forall|j: int| 0 <= j < trees.len() implies find_is_right(
                #[trigger] trees[j],
                path,
            ) && nothing_before_found(trees[j], path) by {
                law_find(parts[j], path);
                lemma_nothing_before_found(parts[j], path);
            }
            assert(parts.len() == trees.len());
            lemma_nothing_before_found_in(trees, path, trees.len() as int);
            lemma_find_in(trees, path, trees.len() as int);
            assert(trees.take(trees.len() as int) =~= trees);
        },
        FileLayout::Atom(files, _) => {
            lemma_nothing_before_first(files@, path);
        },
        FileLayout::Empty => {},
    }
}

proof fn lemma_nothing_before_found_in(trees: Seq<LayoutView>, path: Seq<char>, n: int)
    requires
        0 <= n <= trees.len() <= usize::MAX,
        forall|j: int|
            0 <= j < trees.len() ==> find_is_right(#[trigger] trees[j], path)
                && nothing_before_found(trees[j], path),
    ensures
        match LayoutView::find_in(trees.take(n), path) {
            Some((at, i)) => {
                &&& 0 < at.len()
                &&& at[0] < n
                &&& none_has_path(
                    LayoutView::files_of(trees.take(at[0] as int)) + trees[at[0] as int].before(
                        at.drop_first(),
                    ),
                    path,
                )
                &&& match trees[at[0] as int].atom_at(at.drop_first()) {
                    Some((files, _)) => none_has_path(files.take(i), path),
                    None => true,
                }
            },
            None => true,
        },
    decreases n,
{
    if n > 0 {
        lemma_nothing_before_found_in(trees, path, n - 1);
        lemma_find_in(trees, path, n - 1);
        assert(trees.take(n).drop_last() =~= trees.take(n - 1));
        assert(trees.take(n).last() == trees[n - 1]);
        if LayoutView::find_in(trees.take(n - 1), path) is None {
            if let Some((at, i)) = trees[n - 1].find(path) {
                assert((seq![(n - 1) as usize] + at).drop_first() =~= at);
                assert(find_is_right(trees[n - 1], path));
                let earlier = LayoutView::files_of(trees.take(n - 1));
                let before = trees[n - 1].before(at);
                assert forall|k: int| 0 <= k < (earlier + before).len() implies (#[trigger] (earlier
                    + before)[k])@.path != Some(path) by {
                    if k < earlier.len() {
                        assert((earlier + before)[k] == earlier[k]);
                    } else {
                        assert((earlier + before)[k] == before[k - earlier.len()]);
                    }
                }
            }
        }
    }
}

proof fn lemma_nothing_before_first(files: Seq<FileContainer>, path: Seq<char>)
    ensures
        match first_with_path(files, path) {
            Some(i) => 0 <= i < files.len() && none_has_path(files.take(i), path),
            None => true,
        },
    decreases files.len(),
{
    if files.len() > 0 {
        lemma_nothing_before_first(files.drop_last(), path);
        lemma_first_with_path(files.drop_last(), path);
        match first_with_path(files.drop_last(), path) {
            Some(i) => {
                assert(files.drop_last().take(i) =~= files.take(i));
            },
            None => {
                assert(files.take(files.len() - 1) =~= files.drop_last());
            },
        }
    }
}

impl LayoutView {
    /// The atoms that hold documents, in the order in which they stand in the layout.
    pub open spec fn atoms(self) -> Seq<(Seq<FileContainer>, usize)>
        decreases self,
    {
        match self {
            LayoutView::Split(_, parts) => Self::atoms_of(parts),
            LayoutView::Atom(files, ptr) => if files.len() > 0 {
                seq![(files, ptr)]
            } else {
                Seq::empty()
            },
            LayoutView::Empty => Seq::empty(),
        }
    }

    /// [`LayoutView::atoms`] over several layouts.
    pub open spec fn atoms_of(parts: Seq<LayoutView>) -> Seq<(Seq<FileContainer>, usize)>
        decreases parts,
    {
        if parts.len() == 0 {
            Seq::empty()
        } else {
            Self::atoms_of(parts.drop_last()) + parts.last().atoms()
        }
    }

    /// The layout to which the path leads, if it leads to one.
    pub open spec fn part_at(self, path: Seq<usize>) -> Option<LayoutView>
        decreases path.len(),
    {
        if path.len() == 0 {
            Some(self)
        } else {
            match self {
                LayoutView::Split(_, parts) => if path[0] < parts.len() {
                    parts[path[0] as int].part_at(path.drop_first())
                } else {
                    None
                },
                _ => None,
            }
        }
    }
}

/// Pruning keeps every atom that holds documents as it is, with the document that it shows, and
/// their order.
pub proof fn law_pruned_keeps_atoms(layout: LayoutView)
    ensures
        layout.pruned().atoms() == layout.atoms(),
    decreases layout,
{
    if let LayoutView::Split(_, parts) = layout {
        lemma_kept_keeps_atoms(parts);
        let kept = LayoutView::kept(parts);
        if kept.len() == 1 {
            reveal_with_fuel(LayoutView::atoms_of, 2);
            assert(LayoutView::atoms_of(kept) =~= kept[0].atoms());
        }
    }
}

proof fn lemma_kept_keeps_atoms(parts: Seq<LayoutView>)
    ensures
        LayoutView::atoms_of(LayoutView::kept(parts)) == LayoutView::atoms_of(parts),
    decreases parts,
{
    if parts.len() > 0 {
        lemma_kept_keeps_atoms(parts.drop_last());
        law_pruned_keeps_atoms(parts.last());
        let kept = LayoutView::kept(parts);
        if parts.last().pruned() is Empty {
            assert(LayoutView::atoms_of(parts) =~= LayoutView::atoms_of(parts.drop_last()));
        } else {
            assert(kept.drop_last() =~= LayoutView::kept(parts.drop_last()));
        }
    }
}

/// Of a split, pruning leaves the parts that hold documents, pruned and in order: nothing if there
/// is none, that part if there is one, and a split in the same direction if there are more.
pub proof fn law_pruned_split(direction: Direction, parts: Seq<LayoutView>)
    ensures
        ({
            let full = parts.filter(|part: LayoutView| part.files().len() > 0);
            let pruned = LayoutView::Split(direction, parts).pruned();
            &&& full.len() == 0 ==> pruned is Empty
            &&& full.len() == 1 ==> pruned == full[0].pruned()
            &&& full.len() >= 2 ==> pruned == LayoutView::Split(
                direction,
                full.map_values(|part: LayoutView| part.pruned()),
            )
        }),
{
    lemma_kept_are_full(parts);
}

proof fn lemma_kept_are_full(parts: Seq<LayoutView>)
    ensures
        LayoutView::kept(parts) == parts.filter(
            |part: LayoutView| part.files().len() > 0,
        ).map_values(|part: LayoutView| part.pruned()),
    decreases parts.len(),
{
    reveal(Seq::filter);
    let holds_files = |part: LayoutView| part.files().len() > 0;
    let prune = |part: LayoutView| part.pruned();
    if parts.len() > 0 {
        lemma_kept_are_full(parts.drop_last());
        law_pruned_empty(parts.last());
        let earlier = parts.drop_last().filter(holds_files);
        if parts.last().files().len() > 0 {
            assert(parts.filter(holds_files) == earlier.push(parts.last()));
            assert(earlier.push(parts.last()).map_values(prune) =~= earlier.map_values(prune).push(
                parts.last().pruned(),
            ));
        } else {
            assert(parts.filter(holds_files) == earlier);
        }
    } else {
        assert(parts.filter(holds_files).map_values(prune) =~= Seq::empty());
    }
}

/// A settled path follows the old one as far as the layout does, and takes the first branch at
/// every split from there on.
pub proof fn law_settled_follows(layout: LayoutView, old: Seq<usize>, k: int)
    requires
        0 <= k,
    ensures
        k <= old.len() && layout.part_at(old.take(k)) is Some ==> {
            &&& k <= layout.settled(old).len()
            &&& layout.settled(old).take(k) == old.take(k)
        },
        k >= old.len() || layout.part_at(old.take(k + 1)) is None ==> forall|j: int|
            k <= j < layout.settled(old).len() ==> #[trigger] layout.settled(old)[j] == 0,
    decreases layout,
{
    let settled = layout.settled(old);
    match layout {
        LayoutView::Split(_, parts) => {
            if parts.len() > 0 {
                if old.len() > 0 && old[0] < parts.len() {
                    let part = parts[old[0] as int];
                    let rest = old.drop_first();
                    assert(settled.drop_first() =~= part.settled(rest));
                    if k > 0 {
                        law_settled_follows(part, rest, k - 1);
                        if k <= old.len() {
                            assert(old.take(k).drop_first() =~= rest.take(k - 1));
                            if layout.part_at(old.take(k)) is Some {
                                assert(settled.take(k) =~= seq![settled[0]]
                                    + settled.drop_first().take(k - 1));
                                assert(old.take(k) =~= seq![old[0]] + rest.take(k - 1));
                            }
                        }
                        if k < old.len() {
                            assert(old.take(k + 1).drop_first() =~= rest.take(k));
                        }
                        assert forall|j: int|
                            (k >= old.len() || layout.part_at(old.take(k + 1)) is None) && k <= j
                                < settled.len() implies #[trigger] settled[j] == 0 by {
                            assert(settled.drop_first()[j - 1] == settled[j]);
                        }
                    } else {
                        assert(settled.take(0) =~= old.take(0));
                        assert(old.take(1).drop_first() =~= Seq::<usize>::empty());
                        assert(part.part_at(old.take(1).drop_first()) is Some);
                        assert(layout.part_at(old.take(1)) is Some);
                    }
                } else {
                    let empty = Seq::<usize>::empty();
                    assert(settled.drop_first() =~= parts[0].settled(empty));
                    law_settled_follows(parts[0], empty, 0);
                    assert forall|j: int| 0 <= j < settled.len() implies #[trigger] settled[j]
                        == 0 by {
                        if j > 0 {
                            assert(settled.drop_first()[j - 1] == settled[j]);
                        }
                    }
                    if k == 0 {
                        assert(settled.take(0) =~= old.take(0));
                    }
                }
            } else if k == 0 {
                assert(settled.take(0) =~= old.take(0));
            }
        },
        _ => {
            if k == 0 {
                assert(settled.take(0) =~= old.take(0));
            }
        },
    }
}

/// A layout is the tree that its parts make.
pub proof fn law_layout_view(
    direction: Direction,
    parts: Vec<FileLayout>,
    files: Vec<FileContainer>,
    ptr: usize,
)
    ensures
        FileLayout::Atom(files, ptr)@ == LayoutView::Atom(files@, ptr),
        FileLayout::Empty@ is Empty,
        FileLayout::Split(direction, parts)@ matches LayoutView::Split(way, trees) && {
            &&& way == direction
            &&& trees.len() == parts.len()
            &&& forall|i: int| 0 <= i < parts.len() ==> #[trigger] trees[i] == parts[i]@
        },
{
}

/// A layout is well-formed exactly if every atom in it that holds documents shows one of them, and
/// every other atom stands at the start.
pub proof fn law_wf(
    direction: Direction,
    parts: Seq<LayoutView>,
    files: Seq<FileContainer>,
    ptr: usize,
)
    ensures
        LayoutView::Empty.wf(),
        LayoutView::Atom(files, ptr).wf() <==> ptr < files.len() || ptr == 0,
        LayoutView::Split(direction, parts).wf() <==> forall|i: int|
            0 <= i < parts.len() ==> (#[trigger] parts[i]).wf(),
{
    let split = LayoutView::Split(direction, parts);
    if split.wf() {
        assert forall|i: int| 0 <= i < parts.len() implies (#[trigger] parts[i]).wf() by {
            assert(split->Split_1[i].wf());
        }
    }
    if forall|i: int| 0 <= i < parts.len() ==> (#[trigger] parts[i]).wf() {
        assert(split.wf());
    }
}

} // verus!
