use vstd::prelude::*;

verus! {

/// A member of a project, who can be given issues.
pub struct Member {
    pub id: i32,
    pub username: String,
    pub name: String,
}

/// A named grouping of issues. Two milestones are the same milestone
/// exactly when their ids agree, whatever their other fields hold.
pub struct Milestone {
    pub id: i32,
    pub project_id: i32,
    pub title: String,
    pub description: String,
    pub state: String,
}

impl Milestone {
    /// A field-by-field copy.
    pub fn duplicate(&self) -> (r: Milestone)
        ensures
            r == *self,
    {
        Milestone {
            id: self.id,
            project_id: self.project_id,
            title: self.title.clone(),
            description: self.description.clone(),
            state: self.state.clone(),
        }
    }
}

impl PartialEq for Milestone {
    fn eq(&self, other: &Milestone) -> (r: bool)
        ensures
            r == (self.id == other.id),
    {
        self.id == other.id
    }
}

impl vstd::std_specs::cmp::PartialEqSpecImpl for Milestone {
    open spec fn obeys_eq_spec() -> bool {
        true
    }

    open spec fn eq_spec(&self, other: &Milestone) -> bool {
        self.id == other.id
    }
}

/// An issue of a project, as fetched; never changed here.
pub struct Issue {
    pub id: i32,
    pub iid: i32,
    pub project_id: i32,
    pub title: String,
    pub description: String,
    pub state: String,
    pub kind: String,
    pub assignees: Vec<Member>,
    pub milestone: Option<Milestone>,
}

/// A project that the user is a member of.
pub struct Project {
    pub id: i32,
    pub name: String,
    pub path_with_namespace: String,
    pub web_url: String,
}

/// The way in which the issues to distribute are chosen.
#[derive(Clone, Copy, Debug, PartialEq, Eq, Structural)]
pub enum SelectionKind {
    Milestone,
    Range,
    Manual,
}

impl SelectionKind {
    /// The three ways, in the order in which they are offered.
    pub fn all() -> (r: Vec<SelectionKind>)
        ensures
            r@ == seq![SelectionKind::Milestone, SelectionKind::Range, SelectionKind::Manual],
    {
        vec![SelectionKind::Milestone, SelectionKind::Range, SelectionKind::Manual]
    }
}

} // verus!
