use ident_extract::walk::{report_line, Action, Listed, Listing, Walk};

fn s(text: &str) -> String {
    text.to_string()
}

#[test]
fn walk_starts_with_its_root() {
    let mut walk = Walk::new(s("root"));
    assert_eq!(walk.next(), Some(s("root")));
    assert_eq!(walk.next(), None);
    assert_eq!(walk.next(), None);
}

#[test]
fn absorb_queues_directories_and_processes_files() {
    let mut walk = Walk::new(s("root"));
    let dir = walk.next().unwrap();
    let listing = Listing::Entries(vec![
        Listed::File(s("root/a.rs")),
        Listed::Directory(s("root/x")),
        Listed::Unreadable(s("denied")),
        Listed::Directory(s("root/y")),
        Listed::File(s("root/b.py")),
    ]);
    let actions = walk.absorb(&dir, &listing);
    assert_eq!(
        actions,
        vec![
            Action::Process(s("root/a.rs")),
            Action::ReportEntry { dir: s("root"), cause: s("denied") },
            Action::Process(s("root/b.py")),
        ]
    );
    assert_eq!(walk.next(), Some(s("root/y")));
    assert_eq!(walk.next(), Some(s("root/x")));
    assert_eq!(walk.next(), None);
}

#[test]
fn failed_listing_leaves_the_rest_queued() {
    let mut walk = Walk::new(s("root"));
    let root = walk.next().unwrap();
    let listing = Listing::Entries(vec![Listed::Directory(s("root/x")), Listed::Directory(s("root/y"))]);
    assert_eq!(walk.absorb(&root, &listing), Vec::<Action>::new());
    let y = walk.next().unwrap();
    let actions = walk.absorb(&y, &Listing::Failed(s("permission denied")));
    assert_eq!(
        actions,
        vec![Action::ReportListing { dir: s("root/y"), cause: s("permission denied") }]
    );
    assert_eq!(walk.next(), Some(s("root/x")));
    assert_eq!(walk.next(), None);
}

#[test]
fn empty_directory_gives_nothing() {
    let mut walk = Walk::new(s("root"));
    let root = walk.next().unwrap();
    assert_eq!(walk.absorb(&root, &Listing::Entries(Vec::new())), Vec::<Action>::new());
    assert_eq!(walk.next(), None);
}

#[test]
fn nested_tree_is_visited_file_by_file() {
    let listing_of = |dir: &str| match dir {
        "r" => Listing::Entries(vec![Listed::Directory(s("r/a")), Listed::File(s("r/1.rs")), Listed::Directory(s("r/b"))]),
        "r/a" => Listing::Entries(vec![Listed::Directory(s("r/a/c")), Listed::File(s("r/a/2.py"))]),
        "r/a/c" => Listing::Entries(vec![Listed::File(s("r/a/c/3.c")), Listed::File(s("r/a/c/4.txt"))]),
        "r/b" => Listing::Entries(vec![]),
        _ => Listing::Failed(s("no such directory")),
    };
    let mut walk = Walk::new(s("r"));
    let mut seen = Vec::new();
    let mut listed = 0;
    while let Some(dir) = walk.next() {
        listed += 1;
        for action in walk.absorb(&dir, &listing_of(&dir)) {
            match action {
                Action::Process(path) => seen.push(path),
                other => panic!("{:?}", other),
            }
        }
    }
    seen.sort();
    assert_eq!(listed, 4);
    assert_eq!(seen, vec!["r/1.rs", "r/a/2.py", "r/a/c/3.c", "r/a/c/4.txt"]);
}

#[test]
fn report_line_for_a_directory() {
    let action = Action::ReportListing { dir: s("some/dir"), cause: s("permission denied") };
    assert_eq!(
        report_line("idents", &action),
        Some(s("idents: error: read dir: some/dir: permission denied"))
    );
}

#[test]
fn report_line_for_an_entry() {
    let action = Action::ReportEntry { dir: s("some/dir"), cause: s("broken") };
    assert_eq!(
        report_line("idents", &action),
        Some(s("idents: error: read dir entry: some/dir: broken"))
    );
}

#[test]
fn a_file_is_not_reported() {
    assert_eq!(report_line("idents", &Action::Process(s("a.rs"))), None);
}

#[test]
fn entry_of_another_kind_gives_no_action() {
    let mut walk = Walk::new(s("root"));
    let dir = walk.next().unwrap();
    let listing = Listing::Entries(vec![
        Listed::File(s("root/a.rs")),
        Listed::Other(s("root/p.rs")),
    ]);
    assert_eq!(walk.absorb(&dir, &listing), vec![Action::Process(s("root/a.rs"))]);
    assert_eq!(walk.next(), None);
    for action in walk.absorb(&dir, &Listing::Entries(vec![Listed::Other(s("root/q.py"))])) {
        assert_eq!(report_line("idents", &action), None);
        panic!("{:?}", action);
    }
}
