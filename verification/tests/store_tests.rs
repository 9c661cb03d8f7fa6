use jira_tracker::models::{Epic, Status, Story};
use jira_tracker::store::{DBState, DbError};

#[test]
fn created_ids_are_strictly_increasing_and_unique() {
    let mut db = DBState::new();
    let e1 = db.create_epic(Epic::new("a".to_owned(), "".to_owned()));
    let s1 = db
        .create_story(Story::new("s".to_owned(), "".to_owned()), e1)
        .unwrap();
    let e2 = db.create_epic(Epic::new("b".to_owned(), "".to_owned()));
    let s2 = db
        .create_story(Story::new("t".to_owned(), "".to_owned()), e2)
        .unwrap();

    assert_eq!(e1, 1);
    assert_eq!(s1, 2);
    assert_eq!(e2, 3);
    assert_eq!(s2, 4);
    assert!(e1 < s1 && s1 < e2 && e2 < s2);

    // Deletion never frees an id for reuse.
    db.delete_epic(e2).unwrap();
    let e3 = db.create_epic(Epic::new("c".to_owned(), "".to_owned()));
    assert_eq!(e3, 5);
}

#[test]
fn example_create_epic_and_story_then_close_the_story() {
    let mut db = DBState::new();

    let epic_id = db.create_epic(Epic::new("A".to_owned(), "".to_owned()));
    assert_eq!(epic_id, 1);
    assert_eq!(db.epics[&1].status, Status::Open);

    let story_id = db
        .create_story(Story::new("S".to_owned(), "".to_owned()), epic_id)
        .unwrap();
    assert_eq!(story_id, 2);
    // One Open story hits none of the rollup branches: the epic's status
    // is left at its prior Open.
    assert_eq!(db.epics[&1].status, Status::Open);

    db.update_story_status(story_id, Status::Closed).unwrap();
    // Now every story is Closed or Resolved, so the epic becomes Resolved.
    assert_eq!(db.epics[&1].status, Status::Resolved);
}

#[test]
fn example_delete_epic_removes_its_story() {
    let mut db = DBState::new();

    let epic_id = db.create_epic(Epic::new("A".to_owned(), "".to_owned()));
    let _story_id = db
        .create_story(Story::new("S".to_owned(), "".to_owned()), epic_id)
        .unwrap();

    db.delete_epic(epic_id).unwrap();
    assert_eq!(db.stories.len(), 0);
    assert_eq!(db.epics.len(), 0);
}

#[test]
fn delete_epic_leaves_other_epics_stories_untouched() {
    let mut db = DBState::new();
    let e1 = db.create_epic(Epic::new("one".to_owned(), "".to_owned()));
    let s1 = db
        .create_story(Story::new("mine".to_owned(), "".to_owned()), e1)
        .unwrap();
    let e2 = db.create_epic(Epic::new("two".to_owned(), "".to_owned()));
    let s2 = db
        .create_story(Story::new("other".to_owned(), "".to_owned()), e2)
        .unwrap();

    db.delete_epic(e1).unwrap();

    assert!(!db.stories.contains_key(&s1));
    assert!(db.stories.contains_key(&s2));
    assert_eq!(db.stories[&s2].name, "other".to_owned());
    assert_eq!(db.epics[&e2].stories, vec![s2]);
}

#[test]
fn rollup_gives_in_progress_to_an_epic_with_no_stories() {
    let mut db = DBState::new();
    let epic_id = db.create_epic(Epic::new("empty".to_owned(), "".to_owned()));
    assert_eq!(db.epics[&epic_id].status, Status::Open);

    db.update_epic_status(epic_id).unwrap();
    assert_eq!(db.epics[&epic_id].status, Status::InProgress);
}

#[test]
fn rollup_gives_in_progress_when_any_story_is_in_progress() {
    let mut db = DBState::new();
    let epic_id = db.create_epic(Epic::new("e".to_owned(), "".to_owned()));
    let s1 = db
        .create_story(Story::new("a".to_owned(), "".to_owned()), epic_id)
        .unwrap();
    let s2 = db
        .create_story(Story::new("b".to_owned(), "".to_owned()), epic_id)
        .unwrap();

    db.update_story_status(s1, Status::Closed).unwrap();
    db.update_story_status(s2, Status::InProgress).unwrap();
    assert_eq!(db.epics[&epic_id].status, Status::InProgress);
}

#[test]
fn rollup_gives_resolved_when_stories_are_closed_or_resolved() {
    let mut db = DBState::new();
    let epic_id = db.create_epic(Epic::new("e".to_owned(), "".to_owned()));
    let s1 = db
        .create_story(Story::new("a".to_owned(), "".to_owned()), epic_id)
        .unwrap();
    let s2 = db
        .create_story(Story::new("b".to_owned(), "".to_owned()), epic_id)
        .unwrap();

    db.update_story_status(s1, Status::Closed).unwrap();
    db.update_story_status(s2, Status::Resolved).unwrap();
    assert_eq!(db.epics[&epic_id].status, Status::Resolved);
}

#[test]
fn rollup_leaves_a_mixed_epic_unchanged() {
    // The non-exhaustive branch of the rollup rule, preserved literally:
    // one Open and one Closed story hit no branch, so the status stays.
    let mut db = DBState::new();
    let epic_id = db.create_epic(Epic::new("e".to_owned(), "".to_owned()));
    let s1 = db
        .create_story(Story::new("a".to_owned(), "".to_owned()), epic_id)
        .unwrap();
    let _s2 = db
        .create_story(Story::new("b".to_owned(), "".to_owned()), epic_id)
        .unwrap();

    db.update_story_status(s1, Status::Closed).unwrap();
    assert_eq!(db.epics[&epic_id].status, Status::Open);
}

#[test]
fn close_epic_forces_closed_regardless_of_children() {
    let mut db = DBState::new();
    let epic_id = db.create_epic(Epic::new("e".to_owned(), "".to_owned()));
    let _ = db
        .create_story(Story::new("a".to_owned(), "".to_owned()), epic_id)
        .unwrap();

    db.close_epic(epic_id).unwrap();
    assert_eq!(db.epics[&epic_id].status, Status::Closed);
}

#[test]
fn delete_story_removes_it_and_rolls_the_epic_up() {
    let mut db = DBState::new();
    let epic_id = db.create_epic(Epic::new("e".to_owned(), "".to_owned()));
    let s1 = db
        .create_story(Story::new("a".to_owned(), "".to_owned()), epic_id)
        .unwrap();
    let s2 = db
        .create_story(Story::new("b".to_owned(), "".to_owned()), epic_id)
        .unwrap();
    db.update_story_status(s2, Status::Resolved).unwrap();

    db.delete_story(epic_id, s1).unwrap();

    assert!(!db.stories.contains_key(&s1));
    assert_eq!(db.epics[&epic_id].stories, vec![s2]);
    // The one remaining story is Resolved, so the epic rolls up Resolved.
    assert_eq!(db.epics[&epic_id].status, Status::Resolved);
}

#[test]
fn operations_on_missing_ids_report_not_found() {
    let mut db = DBState::new();
    let epic_id = db.create_epic(Epic::new("e".to_owned(), "".to_owned()));

    assert_eq!(
        db.create_story(Story::new("a".to_owned(), "".to_owned()), 99),
        Err(DbError::NotFound)
    );
    assert_eq!(db.update_story_status(99, Status::Closed), Err(DbError::NotFound));
    assert_eq!(db.close_epic(99), Err(DbError::NotFound));
    assert_eq!(db.update_epic_status(99), Err(DbError::NotFound));
    assert_eq!(db.delete_epic(99), Err(DbError::NotFound));
    assert_eq!(db.delete_story(epic_id, 99), Err(DbError::NotFound));
    assert_eq!(db.delete_story(99, 1), Err(DbError::NotFound));
}

#[test]
fn create_forces_open_status_and_empty_stories() {
    let mut db = DBState::new();
    let mut epic = Epic::new("e".to_owned(), "".to_owned());
    epic.status = Status::Closed;
    let epic_id = db.create_epic(epic);
    assert_eq!(db.epics[&epic_id].status, Status::Open);
    assert_eq!(db.epics[&epic_id].stories.len(), 0);

    let mut story = Story::new("s".to_owned(), "".to_owned());
    story.status = Status::Resolved;
    let story_id = db.create_story(story, epic_id).unwrap();
    assert_eq!(db.stories[&story_id].status, Status::Open);
}
