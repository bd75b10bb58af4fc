//! The arrangement of documents.
use kaolinite::Document;
use ox::container::FileContainer;
use ox::layout::{Direction, FileLayout};
use synoptic::Highlighter;

fn file(path: &str) -> FileContainer {
    FileContainer {
        doc: Document::new(kaolinite::Size { w: 1, h: 1 }),
        highlighter: Highlighter::new(4),
        file_type: None,
        path: Some(path.to_string()),
    }
}

fn atom(paths: &[&str], ptr: usize) -> FileLayout {
    FileLayout::Atom(paths.iter().map(|p| file(p)).collect(), ptr)
}

fn side_by_side(parts: Vec<FileLayout>) -> FileLayout {
    FileLayout::Split(Direction::SideBySide, parts)
}

fn top_to_bottom(parts: Vec<FileLayout>) -> FileLayout {
    FileLayout::Split(Direction::TopToBottom, parts)
}

/// The layout in words.
fn show(layout: &FileLayout) -> String {
    match layout {
        FileLayout::Split(direction, parts) => {
            let parts: Vec<String> = parts.iter().map(show).collect();
            let sign = if *direction == Direction::SideBySide { "|" } else { "-" };
            format!("({})", parts.join(sign))
        }
        FileLayout::Atom(files, ptr) => {
            let files: Vec<String> = files.iter().map(|f| f.path.clone().unwrap()).collect();
            format!("[{}]{}", files.join(" "), ptr)
        }
        FileLayout::Empty => "nothing".to_string(),
    }
}

fn sample() -> FileLayout {
    side_by_side(vec![
        atom(&["/a", "/b"], 1),
        top_to_bottom(vec![atom(&["/c"], 0), atom(&["/d", "/a"], 0)]),
    ])
}

#[test]
fn atoms_by_path() {
    let layout = sample();
    assert_eq!(layout.get_atom(&vec![0]).unwrap().1, 1);
    assert_eq!(layout.get_atom(&vec![1, 1]).unwrap().0.len(), 2);
    assert!(layout.get_atom(&vec![]).is_none());
    assert!(layout.get_atom(&vec![1]).is_none());
    assert!(layout.get_atom(&vec![2]).is_none());
    assert!(layout.get_atom(&vec![0, 0]).is_none());
    assert!(FileLayout::Empty.get_atom(&vec![]).is_none());
    assert_eq!(layout.get(&vec![0]).unwrap().path.as_deref(), Some("/b"));
    assert_eq!(layout.get(&vec![1, 1]).unwrap().path.as_deref(), Some("/d"));
    assert!(atom(&[], 0).get(&vec![]).is_none());
    assert!(atom(&["/a"], 1).get(&vec![]).is_none());
}

#[test]
fn changing_atoms() {
    let mut layout = sample();
    let (files, ptr) = layout.get_atom_mut(&vec![1, 0]).unwrap();
    files.push(file("/e"));
    *ptr = 1;
    layout.get_mut(&vec![0]).unwrap().path = Some("/f".to_string());
    assert!(layout.get_atom_mut(&vec![1]).is_none());
    assert!(layout.get_mut(&vec![7]).is_none());
    layout.move_to(&vec![1, 1], 1);
    layout.move_to(&vec![9], 5);
    assert_eq!(show(&layout), "([/a /f]1|([/c /e]1-[/d /a]1))");
}

#[test]
fn finding_by_absolute_path() {
    let layout = sample();
    assert_eq!(layout.find(vec![], "/a"), Some((vec![0], 0)));
    assert_eq!(layout.find(vec![], "/d"), Some((vec![1, 1], 0)));
    assert_eq!(layout.find(vec![4], "/b"), Some((vec![4, 0], 1)));
    assert_eq!(layout.find(vec![], "/x"), None);
    assert_eq!(layout.find(vec![], ""), None);
    assert_eq!(FileLayout::Empty.find(vec![], "/a"), None);
}

#[test]
fn counting() {
    assert_eq!(FileLayout::Empty.len(), 0);
    assert_eq!(atom(&[], 0).len(), 0);
    assert_eq!(side_by_side(vec![atom(&[], 0), FileLayout::Empty]).len(), 0);
    assert_eq!(side_by_side(vec![atom(&[], 0), atom(&["/a"], 0)]).len(), 1);
    assert_eq!(sample().len(), 5);
}

#[test]
fn documents_by_number() {
    let mut layout = sample();
    for (number, path) in ["/a", "/b", "/c", "/d", "/a"].iter().enumerate() {
        assert_eq!(layout.get_nth_mut(number).unwrap().path.as_deref(), Some(*path));
    }
    assert!(layout.get_nth_mut(5).is_none());
    assert!(FileLayout::Empty.get_nth_mut(0).is_none());
    layout.get_nth_mut(3).unwrap().path = Some("/e".to_string());
    assert_eq!(show(&layout), "([/a /b]1|([/c]0-[/e /a]0))");
}

#[test]
fn well_formed_layouts() {
    assert!(sample().is_well_formed());
    assert!(FileLayout::Empty.is_well_formed());
    assert!(atom(&[], 0).is_well_formed());
    assert!(!atom(&[], 1).is_well_formed());
    assert!(!side_by_side(vec![atom(&["/a"], 0), atom(&["/b"], 1)]).is_well_formed());
}

#[test]
fn cleaning_up() {
    let mut layout = sample();
    layout.clean_up();
    assert_eq!(show(&layout), show(&sample()));
    let mut layout = side_by_side(vec![
        atom(&[], 0),
        top_to_bottom(vec![atom(&["/c"], 0), atom(&[], 0)]),
        FileLayout::Empty,
        atom(&["/d"], 0),
    ]);
    layout.clean_up();
    assert_eq!(show(&layout), "([/c]0|[/d]0)");
    let mut layout = side_by_side(vec![atom(&[], 0), top_to_bottom(vec![atom(&["/c"], 0)])]);
    layout.clean_up();
    assert_eq!(show(&layout), "[/c]0");
    let mut layout = side_by_side(vec![atom(&[], 0), top_to_bottom(vec![])]);
    layout.clean_up();
    assert_eq!(show(&layout), "nothing");
}

#[test]
fn settling_on_an_atom() {
    let layout = sample();
    assert_eq!(layout.new_pointer_position(&vec![1, 1]), vec![1, 1]);
    assert_eq!(layout.new_pointer_position(&vec![1, 5]), vec![1, 0]);
    assert_eq!(layout.new_pointer_position(&vec![1]), vec![1, 0]);
    assert_eq!(layout.new_pointer_position(&vec![5, 1]), vec![0]);
    assert_eq!(layout.new_pointer_position(&vec![0, 1]), vec![0]);
    assert_eq!(atom(&["/a"], 0).new_pointer_position(&vec![3]), Vec::<usize>::new());
    assert_eq!(FileLayout::Empty.new_pointer_position(&vec![3]), Vec::<usize>::new());
}
