use jira_tracker::models::Status;
use jira_tracker::page_helpers::get_column_string;

#[test]
fn test_get_column_string() {
    let text1 = "";
    let text2 = "test";
    let text3 = "testme";
    let text4 = "testmetest";

    let width = 0;

    assert_eq!(get_column_string(text4, width), "".to_owned());

    let width = 1;

    assert_eq!(get_column_string(text4, width), ".".to_owned());

    let width = 2;

    assert_eq!(get_column_string(text4, width), "..".to_owned());

    let width = 3;

    assert_eq!(get_column_string(text4, width), "...".to_owned());

    let width = 4;

    assert_eq!(get_column_string(text4, width), "t...".to_owned());

    let width = 6;

    assert_eq!(get_column_string(text1, width), "      ".to_owned());
    assert_eq!(get_column_string(text2, width), "test  ".to_owned());
    assert_eq!(get_column_string(text3, width), "testme".to_owned());
    assert_eq!(get_column_string(text4, width), "tes...".to_owned());
}

#[test]
fn status_labels_match_the_display_tokens() {
    assert_eq!(Status::Open.label(), "OPEN".to_owned());
    assert_eq!(Status::InProgress.label(), "IN PROGRESS".to_owned());
    assert_eq!(Status::Resolved.label(), "RESOLVED".to_owned());
    assert_eq!(Status::Closed.label(), "CLOSED".to_owned());
}
