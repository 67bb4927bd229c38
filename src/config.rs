//! The desired state: the repositories to manage, and the labels and
//! milestones that each of them should carry.
use vstd::prelude::*;

verus! {

/// The coordinates of one repository.
pub struct Repo {
    pub org: String,
    pub repo: String,
}

/// A label: its name, its colour (`rrggbb` or a colour name) and an optional
/// description.
pub struct Label {
    pub name: String,
    pub color: String,
    pub description: Option<String>,
}

/// A milestone, and the title of the milestone that it replaces, if any.
pub struct Milestone {
    pub title: String,
    pub description: Option<String>,
    pub state: Option<String>,
    pub due: Option<String>,
    pub replaces: Option<String>,
}

/// The repositories to manage, with the labels and milestones that each of
/// them should carry.
pub struct Configuration {
    pub repos: Vec<Repo>,
    pub labels: Vec<Label>,
    pub milestones: Vec<Milestone>,
}

pub fn copy_opt(o: &Option<String>) -> (r: Option<String>)
    ensures
        r == *o,
{
    match o {
        Some(s) => Some(s.clone()),
        None => None,
    }
}

/// Whether two optional texts are equal.
pub fn opt_eq(a: &Option<String>, b: &Option<String>) -> (r: bool)
    ensures
        r == (opt_text(*a) == opt_text(*b)),
{
    match a {
        Some(x) => match b {
            Some(y) => *x == *y,
            None => false,
        },
        None => b.is_none(),
    }
}

pub open spec fn opt_text(o: Option<String>) -> Option<Seq<char>> {
    match o {
        Some(s) => Some(s@),
        None => None,
    }
}

impl Repo {
    pub fn copy(&self) -> (r: Self)
        ensures
            r == *self,
    {
        Repo { org: self.org.clone(), repo: self.repo.clone() }
    }
}

impl Label {
    pub fn copy(&self) -> (r: Self)
        ensures
            r == *self,
    {
        Label {
            name: self.name.clone(),
            color: self.color.clone(),
            description: copy_opt(&self.description),
        }
    }
}

impl Milestone {
    pub fn copy(&self) -> (r: Self)
        ensures
            r == *self,
    {
        Milestone {
            title: self.title.clone(),
            description: copy_opt(&self.description),
            state: copy_opt(&self.state),
            due: copy_opt(&self.due),
            replaces: copy_opt(&self.replaces),
        }
    }
}

} // verus!
