use open_switch::database::Database;
use open_switch::prompt::Prompt;

fn row(id: &str, created_at: Option<i64>) -> Prompt {
    Prompt {
        id: id.to_string(),
        name: id.to_uppercase(),
        content: format!("content of {id}"),
        description: Some("d".to_string()),
        enabled: false,
        created_at,
        updated_at: None,
    }
}

fn ids(db: &Database) -> Vec<String> {
    db.get_prompts().keys().cloned().collect()
}

#[test]
fn a_new_table_is_empty() {
    let db = Database::new();
    assert!(db.get_prompts().is_empty());
    assert_eq!(db.get_prompts().len(), 0);
}

#[test]
fn rows_are_listed_newest_first_and_undated_last() {
    let mut db = Database::new();
    for (id, at) in [("a", Some(5)), ("b", None), ("c", Some(9)), ("d", Some(-3)), ("e", Some(7))] {
        db.save_prompt(&row(id, at));
    }
    assert_eq!(ids(&db), vec!["c", "e", "a", "d", "b"]);
}

#[test]
fn rows_of_one_creation_time_stay_in_the_order_saved() {
    let mut db = Database::new();
    for (id, at) in [("x", Some(5)), ("y", Some(5)), ("n1", None), ("z", Some(5)), ("n2", None)] {
        db.save_prompt(&row(id, at));
    }
    assert_eq!(ids(&db), vec!["x", "y", "z", "n1", "n2"]);
}

#[test]
fn saving_an_id_again_replaces_the_row() {
    let mut db = Database::new();
    db.save_prompt(&row("a", Some(5)));
    db.save_prompt(&row("b", Some(5)));
    let mut changed = row("a", Some(5));
    changed.content = "new".to_string();
    changed.enabled = true;
    db.save_prompt(&changed);
    assert_eq!(ids(&db), vec!["b", "a"]);
    assert_eq!(db.get_prompts().get("a"), Some(&changed));
    assert_eq!(db.get_prompts().len(), 2);
    let moved = row("b", Some(100));
    db.save_prompt(&moved);
    assert_eq!(ids(&db), vec!["b", "a"]);
    db.save_prompt(&row("a", Some(200)));
    assert_eq!(ids(&db), vec!["a", "b"]);
}

#[test]
fn the_listing_maps_each_id_to_its_row() {
    let mut db = Database::new();
    db.save_prompt(&row("a", Some(1)));
    db.save_prompt(&row("b", Some(2)));
    let map = db.get_prompts();
    assert_eq!(map.get("a"), Some(&row("a", Some(1))));
    assert_eq!(map.get("b"), Some(&row("b", Some(2))));
    assert_eq!(map.get("c"), None);
    assert_eq!(map.get_index(0), Some((&"b".to_string(), &row("b", Some(2)))));
}

#[test]
fn deleting_removes_only_the_named_row() {
    let mut db = Database::new();
    for (id, at) in [("a", Some(1)), ("b", Some(2)), ("c", Some(3))] {
        db.save_prompt(&row(id, at));
    }
    db.delete_prompt("b");
    assert_eq!(ids(&db), vec!["c", "a"]);
    db.delete_prompt("b");
    db.delete_prompt("zzz");
    assert_eq!(ids(&db), vec!["c", "a"]);
    db.delete_prompt("c");
    db.delete_prompt("a");
    assert!(ids(&db).is_empty());
}

#[test]
fn disabling_all_clears_every_flag_and_nothing_else() {
    let mut db = Database::new();
    let mut a = row("a", Some(1));
    a.enabled = true;
    let mut b = row("b", Some(2));
    b.enabled = true;
    db.save_prompt(&a);
    db.save_prompt(&b);
    db.save_prompt(&row("c", None));
    db.disable_all_prompts();
    let map = db.get_prompts();
    assert_eq!(map.get("a"), Some(&row("a", Some(1))));
    assert_eq!(map.get("b"), Some(&row("b", Some(2))));
    assert_eq!(map.get("c"), Some(&row("c", None)));
    assert_eq!(ids(&db), vec!["b", "a", "c"]);
}

#[test]
fn enabling_sets_one_flag_and_keeps_the_others() {
    let mut db = Database::new();
    let mut a = row("a", Some(1));
    a.enabled = true;
    db.save_prompt(&a);
    db.save_prompt(&row("b", Some(2)));
    db.enable_prompt("b");
    let map = db.get_prompts();
    assert!(map.get("a").unwrap().enabled);
    assert!(map.get("b").unwrap().enabled);
    assert_eq!(map.get("b").unwrap().content, "content of b");
    db.enable_prompt("missing");
    assert_eq!(db.get_prompts().len(), 2);
}
