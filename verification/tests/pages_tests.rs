use jira_tracker::models::{Action, Epic, Story};
use jira_tracker::pages::{EpicDetail, HomePage, Page, StoryDetail};
use jira_tracker::store::DBState;

#[test]
fn handle_input_should_not_throw_error() {
    let db = DBState::new();

    let page = HomePage {};
    assert_eq!(page.handle_input(&db, ""), None);
}

#[test]
fn handle_input_should_return_the_correct_actions() {
    let mut db = DBState::new();

    let epic = Epic::new("".to_owned(), "".to_owned());

    let epic_id = db.create_epic(epic);

    let page = HomePage {};

    let q = "q";
    let c = "c";
    let valid_epic_id = epic_id.to_string();
    let invalid_epic_id = "999";
    let junk_input = "j983f2j";
    let junk_input_with_valid_prefix = "q983f2j";
    let input_with_trailing_white_spaces = "q\n";

    assert_eq!(page.handle_input(&db, q), Some(Action::Exit));
    assert_eq!(page.handle_input(&db, c), Some(Action::CreateEpic));
    assert_eq!(
        page.handle_input(&db, &valid_epic_id),
        Some(Action::NavigateToEpicDetail { epic_id: 1 })
    );
    assert_eq!(page.handle_input(&db, invalid_epic_id), None);
    assert_eq!(page.handle_input(&db, junk_input), None);
    assert_eq!(page.handle_input(&db, junk_input_with_valid_prefix), None);
    assert_eq!(page.handle_input(&db, input_with_trailing_white_spaces), None);
}

#[test]
fn mod_handle_input_should_not_throw_error() {
    let mut db = DBState::new();
    let epic_id = db.create_epic(Epic::new("".to_owned(), "".to_owned()));

    let page = EpicDetail { epic_id };
    assert_eq!(page.handle_input(&db, ""), None);
}

#[test]
fn mod_handle_input_should_return_the_correct_actions() {
    let mut db = DBState::new();

    let epic_id = db.create_epic(Epic::new("".to_owned(), "".to_owned()));
    let story_id = db
        .create_story(Story::new("".to_owned(), "".to_owned()), epic_id)
        .unwrap();

    let page = EpicDetail { epic_id };

    let p = "p";
    let u = "cl";
    let d = "d";
    let c = "cr";
    let invalid_story_id = "999";
    let junk_input = "j983f2j";
    let junk_input_with_valid_prefix = "p983f2j";
    let input_with_trailing_white_spaces = "p\n";

    assert_eq!(
        page.handle_input(&db, p),
        Some(Action::NavigateToPreviousPage)
    );
    assert_eq!(
        page.handle_input(&db, u),
        Some(Action::CloseEpic { epic_id: 1 })
    );
    assert_eq!(
        page.handle_input(&db, d),
        Some(Action::DeleteEpic { epic_id: 1 })
    );
    assert_eq!(
        page.handle_input(&db, c),
        Some(Action::CreateStory { epic_id: 1 })
    );
    assert_eq!(
        page.handle_input(&db, &story_id.to_string()),
        Some(Action::NavigateToStoryDetail {
            epic_id: 1,
            story_id: 2
        })
    );
    assert_eq!(page.handle_input(&db, invalid_story_id), None);
    assert_eq!(page.handle_input(&db, junk_input), None);
    assert_eq!(page.handle_input(&db, junk_input_with_valid_prefix), None);
    assert_eq!(page.handle_input(&db, input_with_trailing_white_spaces), None);
}

#[test]
fn story_detail_handle_input_should_not_throw_error() {
    let mut db = DBState::new();

    let epic_id = db.create_epic(Epic::new("".to_owned(), "".to_owned()));
    let story_id = db
        .create_story(Story::new("".to_owned(), "".to_owned()), epic_id)
        .unwrap();

    let page = StoryDetail { epic_id, story_id };
    assert_eq!(page.handle_input(""), None);
}

#[test]
fn story_detail_handle_input_should_return_the_correct_actions() {
    let mut db = DBState::new();

    let epic_id = db.create_epic(Epic::new("".to_owned(), "".to_owned()));
    let story_id = db
        .create_story(Story::new("".to_owned(), "".to_owned()), epic_id)
        .unwrap();

    let page = StoryDetail { epic_id, story_id };

    let p = "p";
    let u = "u";
    let d = "d";
    let some_number = "1";
    let junk_input = "j983f2j";
    let junk_input_with_valid_prefix = "p983f2j";
    let input_with_trailing_white_spaces = "p\n";

    assert_eq!(page.handle_input(p), Some(Action::NavigateToPreviousPage));
    assert_eq!(
        page.handle_input(u),
        Some(Action::UpdateStoryStatus { epic_id, story_id })
    );
    assert_eq!(
        page.handle_input(d),
        Some(Action::DeleteStory { epic_id, story_id })
    );
    assert_eq!(page.handle_input(some_number), None);
    assert_eq!(page.handle_input(junk_input), None);
    assert_eq!(page.handle_input(junk_input_with_valid_prefix), None);
    assert_eq!(page.handle_input(input_with_trailing_white_spaces), None);
}

#[test]
fn numeric_input_accepts_a_leading_plus_sign() {
    let mut db = DBState::new();
    let epic_id = db.create_epic(Epic::new("".to_owned(), "".to_owned()));
    assert_eq!(epic_id, 1);

    let page = HomePage {};
    assert_eq!(
        page.handle_input(&db, "+1"),
        Some(Action::NavigateToEpicDetail { epic_id: 1 })
    );
    assert_eq!(page.handle_input(&db, "+"), None);
    assert_eq!(page.handle_input(&db, "++1"), None);
}

#[test]
fn numeric_input_rejects_values_that_do_not_fit() {
    let mut db = DBState::new();
    let _ = db.create_epic(Epic::new("".to_owned(), "".to_owned()));

    let page = HomePage {};
    // Far beyond usize::MAX: parsing must yield no action, not a wrong id.
    assert_eq!(
        page.handle_input(&db, "99999999999999999999999999999999999999"),
        None
    );
    // Leading zeros still denote the same id.
    assert_eq!(
        page.handle_input(&db, "0001"),
        Some(Action::NavigateToEpicDetail { epic_id: 1 })
    );
}

#[test]
fn page_dispatch_matches_each_variant() {
    let mut db = DBState::new();
    let epic_id = db.create_epic(Epic::new("".to_owned(), "".to_owned()));
    let story_id = db
        .create_story(Story::new("".to_owned(), "".to_owned()), epic_id)
        .unwrap();

    let home = Page::Home(HomePage {});
    let epic = Page::EpicDetail(EpicDetail::new(epic_id));
    let story = Page::StoryDetail(StoryDetail { epic_id, story_id });

    assert_eq!(home.handle_input(&db, "q"), Some(Action::Exit));
    assert_eq!(
        epic.handle_input(&db, "cl"),
        Some(Action::CloseEpic { epic_id })
    );
    assert_eq!(
        story.handle_input(&db, "u"),
        Some(Action::UpdateStoryStatus { epic_id, story_id })
    );
}
