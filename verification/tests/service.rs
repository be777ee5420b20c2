use todo_app::models::CreateTodoRequest;
use todo_app::models::TodoService;
use todo_app::models::UpdateTodoRequest;

fn create_req(title: &str, description: Option<&str>) -> CreateTodoRequest {
    CreateTodoRequest { title: title.to_string(), description: description.map(|d| d.to_string()) }
}

fn update_req(title: &str, description: Option<&str>) -> UpdateTodoRequest {
    UpdateTodoRequest { title: title.to_string(), description: description.map(|d| d.to_string()) }
}

#[test]
fn empty_store_has_nothing() {
    let s = TodoService::new();
    assert_eq!(s.get_all().len(), 0);
    assert!(s.get_by_id(1).is_none());
}

#[test]
fn get_after_create_returns_equal_task() {
    let mut s = TodoService::new();
    let t = s.create(create_req("write tests", Some("all of them")));
    let g = s.get_by_id(t.id).expect("created task must be found");
    assert_eq!(g.id, t.id);
    assert_eq!(g.title, t.title);
    assert_eq!(g.description, t.description);
    assert_eq!(g.completed, t.completed);
    assert_eq!(g.created_at, t.created_at);
    assert_eq!(g.updated_at, t.updated_at);
}

#[test]
fn get_after_create_at_returns_equal_task() {
    let mut s = TodoService::new();
    let t = s.create_at(42, 1_000, create_req("fixed", None));
    assert_eq!(t.id, 42);
    assert_eq!(t.created_at, 1_000);
    assert_eq!(t.updated_at, 1_000);
    assert!(!t.completed);
    let g = s.get_by_id(42).expect("created task must be found");
    assert_eq!(g.id, 42);
    assert_eq!(g.title, "fixed");
    assert_eq!(g.description, None);
    assert_eq!(g.created_at, 1_000);
    assert_eq!(g.updated_at, 1_000);
}

#[test]
fn list_is_sorted_newest_first() {
    let mut s = TodoService::new();
    s.create_at(1, 300, create_req("c", None));
    s.create_at(2, 100, create_req("a", None));
    s.create_at(3, 200, create_req("b", None));
    let all = s.get_all();
    assert_eq!(all.len(), 3);
    assert_eq!(all[0].created_at, 300);
    assert_eq!(all[1].created_at, 200);
    assert_eq!(all[2].created_at, 100);
    assert_eq!(all[0].id, 1);
    assert_eq!(all[1].id, 3);
    assert_eq!(all[2].id, 2);
}

#[test]
fn list_stays_sorted_for_clock_creates() {
    let mut s = TodoService::new();
    for i in 0..5 {
        s.create(create_req(&format!("task {}", i), None));
    }
    let all = s.get_all();
    assert_eq!(all.len(), 5);
    for w in all.windows(2) {
        assert!(w[0].created_at >= w[1].created_at);
    }
}

#[test]
fn list_keeps_ties_together() {
    let mut s = TodoService::new();
    s.create_at(1, 100, create_req("first", None));
    s.create_at(2, 100, create_req("second", None));
    let all = s.get_all();
    assert_eq!(all.len(), 2);
    assert!(all.iter().any(|t| t.id == 1));
    assert!(all.iter().any(|t| t.id == 2));
    assert_eq!(all[0].created_at, 100);
    assert_eq!(all[1].created_at, 100);
}

#[test]
fn create_at_same_id_overwrites() {
    let mut s = TodoService::new();
    s.create_at(5, 100, create_req("old", None));
    s.create_at(5, 200, create_req("new", None));
    let all = s.get_all();
    assert_eq!(all.len(), 1);
    let g = s.get_by_id(5).unwrap();
    assert_eq!(g.title, "new");
    assert_eq!(g.created_at, 200);
}

#[test]
fn two_clock_creates_get_distinct_ids() {
    let mut s = TodoService::new();
    let a = s.create(create_req("one", None));
    let b = s.create(create_req("two", None));
    assert_ne!(a.id, b.id);
    assert_eq!(s.get_all().len(), 2);
}

#[test]
fn toggle_twice_restores_flag_and_advances_updated_at() {
    let mut s = TodoService::new();
    let t = s.create_at(9, 100, create_req("flip me", None));
    assert!(!t.completed);
    let t1 = s.toggle_completed_at(9, 200).expect("present");
    assert!(t1.completed);
    assert_eq!(t1.updated_at, 200);
    assert_eq!(t1.created_at, 100);
    let t2 = s.toggle_completed_at(9, 300).expect("present");
    assert!(!t2.completed);
    assert_eq!(t2.updated_at, 300);
    assert!(t1.updated_at > t.updated_at);
    assert!(t2.updated_at > t1.updated_at);
}

#[test]
fn toggle_unknown_id_is_absent() {
    let mut s = TodoService::new();
    s.create_at(1, 100, create_req("only", None));
    assert!(s.toggle_completed_at(2, 200).is_none());
    assert!(s.toggle_completed(2).is_none());
    let g = s.get_by_id(1).unwrap();
    assert!(!g.completed);
    assert_eq!(g.updated_at, 100);
}

#[test]
fn toggle_with_backwards_clock_keeps_created_at_bound() {
    let mut s = TodoService::new();
    s.create_at(1, 500, create_req("early", None));
    let t = s.toggle_completed_at(1, 200).expect("present");
    assert!(t.completed);
    assert_eq!(t.updated_at, 500);
}

#[test]
fn delete_then_get_is_absent_and_second_delete_is_false() {
    let mut s = TodoService::new();
    s.create_at(7, 100, create_req("doomed", None));
    assert!(s.delete(7));
    assert!(s.get_by_id(7).is_none());
    assert!(!s.delete(7));
    assert!(!s.delete(8));
    assert_eq!(s.get_all().len(), 0);
}

#[test]
fn delete_leaves_other_records_alone() {
    let mut s = TodoService::new();
    s.create_at(1, 100, create_req("stay", None));
    s.create_at(2, 200, create_req("go", None));
    assert!(s.delete(2));
    let all = s.get_all();
    assert_eq!(all.len(), 1);
    assert_eq!(all[0].id, 1);
    assert_eq!(all[0].title, "stay");
}

#[test]
fn update_rewrites_title_and_description() {
    let mut s = TodoService::new();
    s.create_at(3, 100, create_req("before", Some("old text")));
    let t = s.update_at(3, 250, update_req("after", None)).expect("present");
    assert_eq!(t.title, "after");
    assert_eq!(t.description, None);
    assert_eq!(t.created_at, 100);
    assert_eq!(t.updated_at, 250);
    assert!(!t.completed);
    let g = s.get_by_id(3).unwrap();
    assert_eq!(g.title, "after");
    assert_eq!(g.description, None);
    assert_eq!(g.updated_at, 250);
}

#[test]
fn update_keeps_completion_flag() {
    let mut s = TodoService::new();
    s.create_at(4, 100, create_req("task", None));
    s.toggle_completed_at(4, 150);
    let t = s.update_at(4, 200, update_req("renamed", Some("note"))).expect("present");
    assert!(t.completed);
    assert_eq!(t.description.as_deref(), Some("note"));
}

#[test]
fn update_unknown_id_inserts_nothing() {
    let mut s = TodoService::new();
    s.create_at(1, 100, create_req("only", None));
    assert!(s.update_at(99, 200, update_req("ghost", None)).is_none());
    assert!(s.update(99, update_req("ghost", None)).is_none());
    let all = s.get_all();
    assert_eq!(all.len(), 1);
    assert_eq!(all[0].id, 1);
    assert_eq!(all[0].title, "only");
    assert!(s.get_by_id(99).is_none());
}

#[test]
fn scenario_buy_milk() {
    let mut s = TodoService::new();
    let t = s.create_at(11, 1_000, create_req("Buy milk", None));
    let g = s.get_by_id(11).expect("present");
    assert!(!g.completed);
    assert!(g.description.is_none());
    assert_eq!(g.created_at, g.updated_at);

    let toggled = s.toggle_completed_at(11, 2_000).expect("present");
    assert!(toggled.completed);
    assert!(toggled.updated_at > t.updated_at);

    let updated = s.update_at(11, 3_000, update_req("Buy oat milk", None)).expect("present");
    assert_eq!(updated.title, "Buy oat milk");
    assert!(updated.completed);

    assert!(s.delete(11));
    assert!(s.get_by_id(11).is_none());
}
