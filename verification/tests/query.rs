use voice_core::store::Store;

const ME: u128 = 0x11;
const T1: &str = "2025-01-01T00:00:00Z";
const T2: &str = "2025-01-02T00:00:00Z";

#[test]
fn ambiguous_tag_names_are_told_apart_by_path() {
    let mut s = Store::new(ME);
    let x = s.create_tag("X", None, T1).unwrap();
    let y = s.create_tag("Y", None, T1).unwrap();
    let work_x = s.create_tag("Work", Some(x), T1).unwrap();
    let work_y = s.create_tag("Work", Some(y), T1).unwrap();
    assert!(s.is_tag_name_ambiguous("Work"));
    assert!(!s.is_tag_name_ambiguous("X"));
    assert!(!s.is_tag_name_ambiguous("Nothing"));
    let both: Vec<u128> = s.get_tags_by_name("Work").iter().map(|t| t.id).collect();
    assert_eq!(both, vec![work_x, work_y]);
    assert_eq!(s.get_tag_by_path("X/Work").unwrap().id, work_x);
    assert_eq!(s.get_tag_by_path(" /Y/ Work /").unwrap().id, work_y);
    assert_eq!(s.get_tag_by_path("X").unwrap().id, x);
    assert!(s.get_tag_by_path("Work").is_none());
    assert!(s.get_tag_by_path("X/Nope").is_none());
    assert!(s.get_tag_by_path("").is_none());
    assert!(s.get_tag_by_path("work").is_none());
    assert_eq!(s.get_all_tags().len(), 4);
}

#[test]
fn descendants_come_level_by_level() {
    let mut s = Store::new(ME);
    let root = s.create_tag("root", None, T1).unwrap();
    let a = s.create_tag("a", Some(root), T1).unwrap();
    let a1 = s.create_tag("a1", Some(a), T1).unwrap();
    let b = s.create_tag("b", Some(root), T1).unwrap();
    let a2 = s.create_tag("a2", Some(a), T1).unwrap();
    let b1 = s.create_tag("b1", Some(b), T1).unwrap();
    let deep = s.create_tag("deep", Some(a1), T1).unwrap();
    let other = s.create_tag("other", None, T1).unwrap();
    assert_eq!(s.get_tag_descendants(root), vec![a, b, a1, a2, b1, deep]);
    assert_eq!(s.get_tag_descendants(a), vec![a1, a2, deep]);
    assert_eq!(s.get_tag_descendants(deep), Vec::<u128>::new());
    assert_eq!(s.get_tag_descendants(other), Vec::<u128>::new());
    assert_eq!(s.get_tag_descendants(123456), Vec::<u128>::new());
}

#[test]
fn notes_are_filtered_by_tags_and_text() {
    let mut s = Store::new(ME);
    let n1 = s.create_note("buy milk", T1).unwrap();
    let n2 = s.create_note("buy bread and milk", T1).unwrap();
    let n3 = s.create_note("call home", T1).unwrap();
    let n4 = s.create_note("milk gone", T1).unwrap();
    let shop = s.create_tag("shop", None, T1).unwrap();
    let urgent = s.create_tag("urgent", None, T1).unwrap();
    s.add_tag_to_note(n1, shop, T1);
    s.add_tag_to_note(n2, shop, T1);
    s.add_tag_to_note(n2, urgent, T1);
    s.add_tag_to_note(n3, urgent, T1);
    s.add_tag_to_note(n4, shop, T1);
    s.remove_tag_from_note(n4, shop, T2);
    let ids = |rows: Vec<voice_core::rows::NoteRow>| rows.iter().map(|n| n.id).collect::<Vec<u128>>();

    assert_eq!(ids(s.get_all_notes()), vec![n1, n2, n3, n4]);
    assert_eq!(ids(s.filter_notes(&vec![])), vec![n1, n2, n3, n4]);
    assert_eq!(ids(s.filter_notes(&vec![shop])), vec![n1, n2]);
    assert_eq!(ids(s.filter_notes(&vec![shop, urgent])), vec![n2]);
    assert_eq!(ids(s.filter_notes(&vec![shop, 999])), Vec::<u128>::new());
    assert!(s.note_has_all_tags(n2, &vec![urgent, shop]));
    assert!(!s.note_has_all_tags(n1, &vec![urgent, shop]));
    let tags: Vec<u128> = s.get_note_tags(n2).iter().map(|t| t.id).collect();
    assert_eq!(tags, vec![shop, urgent]);
    assert!(s.get_note_tags(n4).is_empty());

    assert_eq!(ids(s.search_notes(None, None)), vec![n1, n2, n3, n4]);
    assert_eq!(ids(s.search_notes(Some("milk"), None)), vec![n1, n2, n4]);
    assert_eq!(ids(s.search_notes(Some(""), None)), vec![n1, n2, n3, n4]);
    assert_eq!(ids(s.search_notes(Some("Milk"), None)), Vec::<u128>::new());
    assert_eq!(ids(s.search_notes(Some("milk"), Some(&vec![vec![shop]]))), vec![n1, n2]);
    assert_eq!(ids(s.search_notes(None, Some(&vec![vec![shop, urgent], vec![urgent]]))), vec![n2, n3]);
    assert_eq!(ids(s.search_notes(None, Some(&vec![]))), vec![n1, n2, n3, n4]);
    assert_eq!(ids(s.search_notes(None, Some(&vec![vec![999]]))), Vec::<u128>::new());
    s.delete_note(n2, T2);
    assert_eq!(ids(s.search_notes(Some("milk"), None)), vec![n1, n4]);
    assert_eq!(ids(s.filter_notes(&vec![shop])), vec![n1]);
}
