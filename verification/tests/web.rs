use sanvi::model::init::init;
use sanvi::table::{append_item, Table};
use sanvi::view::client::Controller;

fn s(text: &str) -> String {
    text.to_string()
}

#[test]
fn controller_lists_sources_of_a_heading() {
    let (client, _) =
        init("template = /t\n[RssLinks]\nNews, a, u1\nTech, b, u2\nNews, c, u3\n").unwrap();
    let controller = Controller::new(client);
    assert_eq!(controller.sources(&s("News")), Ok(vec![s("a"), s("c")]));
    assert_eq!(controller.sources(&s("Tech")), Ok(vec![s("b")]));
    assert_eq!(controller.sources(&s("Sport")), Err(404));
    let headings = controller.headings_ref();
    assert_eq!(headings.len(), 2);
    assert_eq!(headings.key(0), "News");
    assert_eq!(headings.key(1), "Tech");
}

#[test]
fn table_insert_overwrites_in_place() {
    let mut t: Table<u32> = Table::new();
    t.insert(s("a"), 1);
    t.insert(s("b"), 2);
    t.insert(s("a"), 3);
    assert_eq!(t.len(), 2);
    assert_eq!(t.key(0), "a");
    assert_eq!(*t.value(0), 3);
    assert_eq!(t.key(1), "b");
    assert_eq!(t.position(&s("b")), Some(1));
    assert_eq!(t.position(&s("c")), None);
    assert!(t.contains_key(&s("a")));
    assert!(!t.contains_key(&s("c")));
    assert_eq!(t.get(&s("a")), Some(&3));
    assert_eq!(t.get(&s("c")), None);
}

#[test]
fn table_remove_first_drops_the_oldest() {
    let mut t: Table<u32> = Table::new();
    t.insert(s("a"), 1);
    t.insert(s("b"), 2);
    t.remove_first();
    assert_eq!(t.len(), 1);
    assert_eq!(t.key(0), "b");
    assert_eq!(t.get(&s("a")), None);
}

#[test]
fn table_append_item_groups_by_name() {
    let mut t: Table<Vec<String>> = Table::new();
    append_item(&mut t, s("h"), s("1"));
    append_item(&mut t, s("g"), s("2"));
    append_item(&mut t, s("h"), s("3"));
    assert_eq!(t.len(), 2);
    assert_eq!(t.get(&s("h")), Some(&vec![s("1"), s("3")]));
    assert_eq!(t.get(&s("g")), Some(&vec![s("2")]));
}

#[test]
fn client_bag_clone_keeps_everything() {
    let (client, _) =
        init("template = /t\nclients = 9\n[RssLinks]\nNews, a, u1\nTech, b, u2\nNews, c, u3\n")
            .unwrap();
    let copy = client.clone();
    assert_eq!(copy.templatedir, "/t");
    assert_eq!(copy.clients, 9);
    assert_eq!(copy.headings.len(), 2);
    assert_eq!(copy.headings.get(&s("News")), Some(&vec![s("a"), s("c")]));
    assert_eq!(copy.headings.get(&s("Tech")), client.headings.get(&s("Tech")));
}
