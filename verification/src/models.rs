//! The domain model: work-item statuses, stories, epics, and the actions a
//! user can ask for. Epics reference their stories by id; the story values
//! themselves live in the repository's story map.

use vstd::prelude::*;

verus! {

/// Lifecycle stage of an epic or a story.
#[derive(Clone, Copy, Debug, PartialEq, Eq, Hash, Structural)]
pub enum Status {
    Open,
    InProgress,
    Resolved,
    Closed,
}

impl Status {
    /// The display token for this status.
    pub open spec fn spec_label(self) -> Seq<char> {
        match self {
            Status::Open => "OPEN"@,
            Status::InProgress => "IN PROGRESS"@,
            Status::Resolved => "RESOLVED"@,
            Status::Closed => "CLOSED"@,
        }
    }

    /// Renders the status as the token shown on every page.
    pub fn label(&self) -> (r: String)
        ensures
            r@ == self.spec_label(),
    {
        match self {
            Status::Open => "OPEN".to_owned(),
            Status::InProgress => "IN PROGRESS".to_owned(),
            Status::Resolved => "RESOLVED".to_owned(),
            Status::Closed => "CLOSED".to_owned(),
        }
    }
}

/// A leaf work item, owned by exactly one epic.
#[derive(Debug, PartialEq, Eq)]
pub struct Story {
    pub name: String,
    pub description: String,
    pub status: Status,
}

/// The mathematical value of a `Story`.
#[verifier::ext_equal]
pub ghost struct StoryView {
    pub name: Seq<char>,
    pub description: Seq<char>,
    pub status: Status,
}

impl StoryView {
    /// The same story with its status replaced.
    pub open spec fn with_status(self, status: Status) -> StoryView {
        StoryView { status, ..self }
    }
}

impl View for Story {
    type V = StoryView;

    open spec fn view(&self) -> StoryView {
        StoryView { name: self.name@, description: self.description@, status: self.status }
    }
}

impl Clone for Story {
    fn clone(&self) -> (r: Self)
        ensures
            r@ == self@,
    {
        Story {
            name: self.name.clone(),
            description: self.description.clone(),
            status: self.status,
        }
    }
}

impl Story {
    /// A fresh story always starts out `Open`.
    pub fn new(name: String, description: String) -> (r: Self)
        ensures
            r@ == (StoryView { name: name@, description: description@, status: Status::Open }),
    {
        Story { name, description, status: Status::Open }
    }
}

/// A top-level work item grouping stories; `stories` holds the ids of its
/// children, in creation order. The story values live in the repository.
#[derive(Debug, PartialEq, Eq)]
pub struct Epic {
    pub name: String,
    pub description: String,
    pub stories: Vec<usize>,
    pub status: Status,
}

/// The mathematical value of an `Epic`.
#[verifier::ext_equal]
pub ghost struct EpicView {
    pub name: Seq<char>,
    pub description: Seq<char>,
    pub stories: Seq<usize>,
    pub status: Status,
}

impl EpicView {
    /// The same epic with its derived status replaced.
    pub open spec fn with_status(self, status: Status) -> EpicView {
        EpicView { status, ..self }
    }
}

impl View for Epic {
    type V = EpicView;

    open spec fn view(&self) -> EpicView {
        EpicView {
            name: self.name@,
            description: self.description@,
            stories: self.stories@,
            status: self.status,
        }
    }
}

impl Clone for Epic {
    fn clone(&self) -> (r: Self)
        ensures
            r@ == self@,
    {
        let stories = self.stories.clone();
        assert(stories@ =~= self.stories@);
        Epic {
            name: self.name.clone(),
            description: self.description.clone(),
            stories,
            status: self.status,
        }
    }
}

impl Epic {
    /// A fresh epic starts out `Open` with no stories.
    pub fn new(name: String, description: String) -> (r: Self)
        ensures
            r@ == (EpicView {
                name: name@,
                description: description@,
                stories: Seq::<usize>::empty(),
                status: Status::Open,
            }),
    {
        let r = Epic { name, description, stories: Vec::new(), status: Status::Open };
        assert(r@.stories =~= Seq::<usize>::empty());
        r
    }
}

/// A structured user intent: produced by a page from one input line and
/// consumed by the navigator in a single dispatch cycle.
#[derive(Clone, Copy, Debug, PartialEq, Eq, Structural)]
pub enum Action {
    NavigateToEpicDetail { epic_id: usize },
    NavigateToStoryDetail { epic_id: usize, story_id: usize },
    NavigateToPreviousPage,
    GetEpicName { epic_id: usize },
    GetEpicDescription { epic_id: usize },
    GetStoryName { story_id: usize },
    GetStoryDescription { story_id: usize },
    CreateEpic,
    CloseEpic { epic_id: usize },
    ReopenEpic { epic_id: usize },
    DeleteEpic { epic_id: usize },
    CreateStory { epic_id: usize },
    UpdateStoryStatus { epic_id: usize, story_id: usize },
    DeleteStory { epic_id: usize, story_id: usize },
    Exit,
}

} // verus!
