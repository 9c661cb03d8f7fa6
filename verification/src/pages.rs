//! The pages of the interactive surface. Each page interprets one raw input
//! line as an `Action`, totally: exact command words map to actions, a
//! number opens a child the page recognizes, and every other line means "no
//! action". Rendering the pages is presentation and happens outside the
//! library.

use vstd::prelude::*;

use crate::models::Action;
use crate::parse::{int_string_val, parse_usize, parses_as_usize};
use crate::store::{DBState, DbView};

verus! {

/// Whether `s` is exactly the one-character command `c`.
fn is_cmd1(s: &str, c: char) -> (r: bool)
    ensures
        r == (s@ == seq![c]),
{
    let r = s.unicode_len() == 1 && s.get_char(0) == c;
    proof {
        if r {
            assert(s@ =~= seq![c]);
        }
    }
    r
}

/// Whether `s` is exactly the two-character command `c0 c1`.
fn is_cmd2(s: &str, c0: char, c1: char) -> (r: bool)
    ensures
        r == (s@ == seq![c0, c1]),
{
    let r = s.unicode_len() == 2 && s.get_char(0) == c0 && s.get_char(1) == c1;
    proof {
        if r {
            assert(s@ =~= seq![c0, c1]);
        }
    }
    r
}

/// The list of epics: `q` quits, `c` creates an epic, and an id opens the
/// epic it names.
#[derive(Clone, Copy, Debug, PartialEq, Eq, Structural)]
pub struct HomePage {
}

/// What the home page makes of one input line.
pub open spec fn spec_home_action(s: DbView, input: Seq<char>) -> Option<Action> {
    if input == "q"@ {
        Some(Action::Exit)
    } else if input == "c"@ {
        Some(Action::CreateEpic)
    } else if parses_as_usize(input) && s.epics.contains_key(int_string_val(input) as usize) {
        Some(Action::NavigateToEpicDetail { epic_id: int_string_val(input) as usize })
    } else {
        None
    }
}

impl HomePage {
    /// Interprets one input line against the repository `db`.
    pub fn handle_input(&self, db: &DBState, input: &str) -> (r: Option<Action>)
        ensures
            r == spec_home_action(db@, input@),
    {
        proof {
            reveal_strlit("q");
            reveal_strlit("c");
            assert("q"@ =~= seq!['q']);
            assert("c"@ =~= seq!['c']);
        }
        if is_cmd1(input, 'q') {
            return Some(Action::Exit);
        }
        if is_cmd1(input, 'c') {
            return Some(Action::CreateEpic);
        }
        match parse_usize(input) {
            Some(id) => {
                if db.epics.contains_key(&id) {
                    Some(Action::NavigateToEpicDetail { epic_id: id })
                } else {
                    None
                }
            },
            None => None,
        }
    }
}

/// One epic's detail view: commands act on the epic, and an id opens one of
/// its own stories.
#[derive(Clone, Copy, Debug, PartialEq, Eq, Structural)]
pub struct EpicDetail {
    pub epic_id: usize,
}

/// What an epic detail page makes of one input line.
pub open spec fn spec_epic_action(s: DbView, epic_id: usize, input: Seq<char>) -> Option<Action> {
    if input == "p"@ {
        Some(Action::NavigateToPreviousPage)
    } else if input == "cl"@ {
        Some(Action::CloseEpic { epic_id })
    } else if input == "r"@ {
        Some(Action::ReopenEpic { epic_id })
    } else if input == "d"@ {
        Some(Action::DeleteEpic { epic_id })
    } else if input == "cr"@ {
        Some(Action::CreateStory { epic_id })
    } else if input == "en"@ {
        Some(Action::GetEpicName { epic_id })
    } else if input == "ed"@ {
        Some(Action::GetEpicDescription { epic_id })
    } else if parses_as_usize(input) && s.epics.contains_key(epic_id)
        && s.epics[epic_id].stories.contains(int_string_val(input) as usize) {
        Some(
            Action::NavigateToStoryDetail {
                epic_id,
                story_id: int_string_val(input) as usize,
            },
        )
    } else {
        None
    }
}

impl EpicDetail {
    /// A detail page for epic `epic_id`.
    pub fn new(epic_id: usize) -> (r: Self)
        ensures
            r.epic_id == epic_id,
    {
        EpicDetail { epic_id }
    }

    /// Interprets one input line against the repository `db`.
    pub fn handle_input(&self, db: &DBState, input: &str) -> (r: Option<Action>)
        ensures
            r == spec_epic_action(db@, self.epic_id, input@),
    {
        proof {
            reveal_strlit("p");
            reveal_strlit("cl");
            reveal_strlit("r");
            reveal_strlit("d");
            reveal_strlit("cr");
            reveal_strlit("en");
            reveal_strlit("ed");
            assert("p"@ =~= seq!['p']);
            assert("cl"@ =~= seq!['c', 'l']);
            assert("r"@ =~= seq!['r']);
            assert("d"@ =~= seq!['d']);
            assert("cr"@ =~= seq!['c', 'r']);
            assert("en"@ =~= seq!['e', 'n']);
            assert("ed"@ =~= seq!['e', 'd']);
        }
        if is_cmd1(input, 'p') {
            return Some(Action::NavigateToPreviousPage);
        }
        if is_cmd2(input, 'c', 'l') {
            return Some(Action::CloseEpic { epic_id: self.epic_id });
        }
        if is_cmd1(input, 'r') {
            return Some(Action::ReopenEpic { epic_id: self.epic_id });
        }
        if is_cmd1(input, 'd') {
            return Some(Action::DeleteEpic { epic_id: self.epic_id });
        }
        if is_cmd2(input, 'c', 'r') {
            return Some(Action::CreateStory { epic_id: self.epic_id });
        }
        if is_cmd2(input, 'e', 'n') {
            return Some(Action::GetEpicName { epic_id: self.epic_id });
        }
        if is_cmd2(input, 'e', 'd') {
            return Some(Action::GetEpicDescription { epic_id: self.epic_id });
        }
        match parse_usize(input) {
            Some(id) => {
                match self.story_of_epic(db, id) {
                    true => Some(
                        Action::NavigateToStoryDetail { epic_id: self.epic_id, story_id: id },
                    ),
                    false => None,
                }
            },
            None => None,
        }
    }

    /// Whether `story_id` is a story of this page's epic.
    fn story_of_epic(&self, db: &DBState, story_id: usize) -> (r: bool)
        ensures
            r == (db@.epics.contains_key(self.epic_id) && db@.epics[self.epic_id].stories.contains(
                story_id,
            )),
    {
        match db.epics.get(&self.epic_id) {
            Some(epic) => {
                proof {
                    assert(epic@ == db@.epics[self.epic_id]);
                }
                let n = epic.stories.len();
                let mut i: usize = 0;
                while i < n
                    invariant
                        0 <= i <= n,
                        n == epic@.stories.len(),
                        db@.epics.contains_key(self.epic_id),
                        epic@ == db@.epics[self.epic_id],
                        forall|k: int| 0 <= k < i ==> epic@.stories[k] != story_id,
                    decreases n - i,
                {
                    if epic.stories[i] == story_id {
                        proof {
                            assert(db@.epics[self.epic_id].stories[i as int] == story_id);
                        }
                        return true;
                    }
                    i = i + 1;
                }
                false
            },
            None => false,
        }
    }
}

/// One story's detail view: commands act on the story alone.
#[derive(Clone, Copy, Debug, PartialEq, Eq, Structural)]
pub struct StoryDetail {
    pub epic_id: usize,
    pub story_id: usize,
}

/// What a story detail page makes of one input line.
pub open spec fn spec_story_action(epic_id: usize, story_id: usize, input: Seq<char>) -> Option<
    Action,
> {
    if input == "p"@ {
        Some(Action::NavigateToPreviousPage)
    } else if input == "u"@ {
        Some(Action::UpdateStoryStatus { epic_id, story_id })
    } else if input == "sn"@ {
        Some(Action::GetStoryName { story_id })
    } else if input == "sd"@ {
        Some(Action::GetStoryDescription { story_id })
    } else if input == "d"@ {
        Some(Action::DeleteStory { epic_id, story_id })
    } else {
        None
    }
}

impl StoryDetail {
    /// Interprets one input line; a story page needs nothing from the
    /// repository for that.
    pub fn handle_input(&self, input: &str) -> (r: Option<Action>)
        ensures
            r == spec_story_action(self.epic_id, self.story_id, input@),
    {
        proof {
            reveal_strlit("p");
            reveal_strlit("u");
            reveal_strlit("sn");
            reveal_strlit("sd");
            reveal_strlit("d");
            assert("p"@ =~= seq!['p']);
            assert("u"@ =~= seq!['u']);
            assert("sn"@ =~= seq!['s', 'n']);
            assert("sd"@ =~= seq!['s', 'd']);
            assert("d"@ =~= seq!['d']);
        }
        if is_cmd1(input, 'p') {
            return Some(Action::NavigateToPreviousPage);
        }
        if is_cmd1(input, 'u') {
            return Some(
                Action::UpdateStoryStatus { epic_id: self.epic_id, story_id: self.story_id },
            );
        }
        if is_cmd2(input, 's', 'n') {
            return Some(Action::GetStoryName { story_id: self.story_id });
        }
        if is_cmd2(input, 's', 'd') {
            return Some(Action::GetStoryDescription { story_id: self.story_id });
        }
        if is_cmd1(input, 'd') {
            return Some(
                Action::DeleteStory { epic_id: self.epic_id, story_id: self.story_id },
            );
        }
        None
    }
}

/// One screen of interactive state; the navigator keeps a stack of these.
#[derive(Clone, Copy, Debug, PartialEq, Eq, Structural)]
pub enum Page {
    Home(HomePage),
    EpicDetail(EpicDetail),
    StoryDetail(StoryDetail),
}

/// What a page makes of one input line.
pub open spec fn spec_page_action(page: Page, s: DbView, input: Seq<char>) -> Option<Action> {
    match page {
        Page::Home(_) => spec_home_action(s, input),
        Page::EpicDetail(p) => spec_epic_action(s, p.epic_id, input),
        Page::StoryDetail(p) => spec_story_action(p.epic_id, p.story_id, input),
    }
}

impl Page {
    /// Interprets one input line against the repository `db`.
    pub fn handle_input(&self, db: &DBState, input: &str) -> (r: Option<Action>)
        ensures
            r == spec_page_action(*self, db@, input@),
    {
        match self {
            Page::Home(p) => p.handle_input(db, input),
            Page::EpicDetail(p) => p.handle_input(db, input),
            Page::StoryDetail(p) => p.handle_input(input),
        }
    }
}

} // verus!
