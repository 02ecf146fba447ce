use chrono::TimeZone;
use tasktrack::calendar::Date;
use tasktrack::filter_parser::{attr_and_range, Attr};
use tasktrack::tasks::{
    translate, Candidate, Idx, Loc, Multiline, Status, Task, Tasks, Timestamp,
};

fn at(secs: i64) -> Timestamp {
    Timestamp { secs, nanos: 0 }
}

fn task(id: usize, status: Status, title: &str) -> Task {
    Task {
        id,
        status,
        title: title.to_string(),
        created_at: at(1_000),
        updated_at: at(2_000),
        comments: String::new(),
    }
}

fn sample() -> Tasks {
    Tasks::new(vec![
        task(3, Status::Todo, "buy milk"),
        task(7, Status::Drop, "old idea"),
        task(5, Status::Done, "write report"),
        task(2, Status::Drop, "spam"),
    ])
}

#[test]
fn test_translate() {
    assert_eq!(translate("ghbdtn"), "привет")
}

#[test]
fn translate_keeps_other_characters() {
    assert_eq!(translate("Hi, 42!"), "Hшб 42!");
    assert_eq!(translate("[];',./"), "хъжэбю.");
    assert_eq!(translate(""), "");
}

#[test]
fn visibility_and_names() {
    assert!(Status::Todo.is_visible());
    assert!(Status::Done.is_visible());
    assert!(!Status::Drop.is_visible());
    assert_eq!(Status::parse("done"), Some(Status::Done));
    assert_eq!(Status::parse("drop"), Some(Status::Drop));
    assert_eq!(Status::parse("Done"), None);
    assert_eq!(Status::Todo.name(), "Todo");
}

#[test]
fn loc_from_index() {
    let loc = Loc::new(4usize, 9);
    assert_eq!(loc.idx, Idx(4));
    assert_eq!(loc.id, 9);
    let back: usize = loc.idx.into();
    assert_eq!(back, 4);
}

#[test]
fn next_id_follows_the_largest() {
    let mut tasks = sample();
    let loc = tasks.next_loc();
    assert_eq!(loc, Loc { idx: Idx(4), id: 8 });
    let added = tasks.add("new".to_string(), Status::Todo, at(5_000));
    assert_eq!(added, loc);
    let t = tasks.find_idx(Idx(4)).unwrap();
    assert_eq!(t.id, 8);
    assert_eq!(t.title, "new");
    assert_eq!(t.created_at, at(5_000));
    assert_eq!(Tasks::new(vec![]).next_loc(), Loc { idx: Idx(0), id: 1 });
}

#[test]
fn removing_dropped_keeps_order() {
    let mut tasks = sample();
    assert_eq!(tasks.remove_dropped(), 2);
    let ids: Vec<usize> = tasks.into_inner().iter().map(|t| t.id).collect();
    assert_eq!(ids, vec![3, 5]);
}

#[test]
fn dropping_done_tasks() {
    let mut tasks = sample();
    assert_eq!(tasks.drop_done(at(9_000)), 1);
    let t = tasks.find_idx(Idx(2)).unwrap();
    assert_eq!(t.status, Status::Drop);
    assert_eq!(t.updated_at, at(9_000));
    let t = tasks.find_idx(Idx(0)).unwrap();
    assert_eq!(t.status, Status::Todo);
    assert_eq!(t.updated_at, at(2_000));
    assert_eq!(tasks.drop_done(at(9_500)), 0);
}

#[test]
fn status_changes_by_index() {
    let mut tasks = sample();
    assert!(tasks.set_done_idx(Idx(0), at(3_000)));
    assert_eq!(tasks.find_idx(Idx(0)).unwrap().status, Status::Done);
    assert!(tasks.set_todo_idx(Idx(1), at(3_000)));
    assert_eq!(tasks.find_idx(Idx(1)).unwrap().status, Status::Todo);
    assert!(tasks.set_dropped_idx(Idx(2), at(3_000)));
    assert_eq!(tasks.find_idx(Idx(2)).unwrap().status, Status::Drop);
    assert!(!tasks.set_done_idx(Idx(10), at(3_000)));
    assert!(tasks.find_idx(Idx(10)).is_none());
}

#[test]
fn remove_by_index() {
    let mut tasks = sample();
    let t = tasks.remove(Idx(1)).unwrap();
    assert_eq!(t.id, 7);
    assert_eq!(tasks.len(), 3);
    assert!(tasks.remove(Idx(3)).is_none());
}

#[test]
fn comments_append_on_new_lines() {
    let mut t = task(1, Status::Todo, "a");
    t.add_comment(Multiline::Append("first".to_string()), at(10));
    assert_eq!(t.comments, "first");
    assert_eq!(t.updated_at, at(10));
    t.add_comment(Multiline::Append("second".to_string()), at(20));
    assert_eq!(t.comments, "first\nsecond");
    t.add_comment(Multiline::Append(String::new()), at(30));
    assert_eq!(t.updated_at, at(20));
    t.add_comment(Multiline::Full("first\nsecond".to_string()), at(40));
    assert_eq!(t.updated_at, at(20));
    t.add_comment(Multiline::Full("replaced".to_string()), at(50));
    assert_eq!(t.comments, "replaced");
    assert_eq!(t.updated_at, at(50));
}

#[test]
fn rename_by_index() {
    let mut tasks = sample();
    assert!(tasks.change_title_idx(Idx(0), "buy oat milk".to_string(), at(60)));
    let t = tasks.find_idx(Idx(0)).unwrap();
    assert_eq!(t.title, "buy oat milk");
    assert_eq!(t.updated_at, at(60));
    assert!(tasks.add_comment_idx(Idx(0), Multiline::Append("2 l".to_string()), at(70)));
    assert_eq!(tasks.find_idx(Idx(0)).unwrap().comments, "2 l");
}

#[test]
fn filter_by_task_day() {
    let today = Date::from_ymd(2025, 5, 4).unwrap();
    let may3 = chrono::Utc.with_ymd_and_hms(2025, 5, 3, 23, 59, 0).unwrap().timestamp();
    let may4 = chrono::Utc.with_ymd_and_hms(2025, 5, 4, 0, 1, 0).unwrap().timestamp();
    let mut t = task(1, Status::Todo, "a");
    t.created_at = at(may3);
    t.updated_at = at(may4);
    let (_, (attr, range)) = attr_and_range("updated today", today).unwrap();
    assert_eq!(attr, Attr::Updated);
    assert!(t.in_range(Attr::Updated, &range));
    assert!(!t.in_range(Attr::Created, &range));
    let (_, (_, range)) = attr_and_range("created yesterday", today).unwrap();
    assert!(t.in_range(Attr::Created, &range));
}

#[test]
fn search_prefers_a_match_by_id() {
    let tasks = sample();
    let found = vec![Some(Candidate::SubsetOfTitle), None, Some(Candidate::ById), None];
    assert_eq!(tasks.pick_found(&found, false), vec![Loc { idx: Idx(2), id: 5 }]);
    let found = vec![Some(Candidate::SimilarTitle), Some(Candidate::ById), None, Some(Candidate::SubsetOfComment)];
    assert_eq!(tasks.pick_found(&found, false), vec![Loc { idx: Idx(0), id: 3 }]);
    assert_eq!(tasks.pick_found(&found, true), vec![Loc { idx: Idx(1), id: 7 }]);
    assert_eq!(tasks.pick_found(&vec![None, None, None, None], true), vec![]);
}

#[test]
fn every_place_in_order() {
    let locs = sample().all_locs();
    let ids: Vec<(usize, usize)> = locs.iter().map(|l| (l.idx.0, l.id)).collect();
    assert_eq!(ids, vec![(0, 3), (1, 7), (2, 5), (3, 2)]);
    assert!(!sample().next_id_overflows());
    let full = Tasks::new(vec![task(usize::MAX, Status::Todo, "last")]);
    assert!(full.next_id_overflows());
}

#[test]
fn empty_search_shows_all_or_nothing() {
    let tasks = sample();
    assert_eq!(tasks.find(&None, true, true), tasks.all_locs());
    assert_eq!(tasks.find(&None, true, false), vec![]);
    let found = Some(vec![None, None, Some(Candidate::SubsetOfTitle), None]);
    assert_eq!(tasks.find(&found, false, true), vec![Loc { idx: Idx(2), id: 5 }]);
}
