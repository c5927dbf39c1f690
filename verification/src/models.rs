use vstd::prelude::*;
use vstd::string::StringExecFns;

verus! {

// ---------------------------------------------------------------------------
// Abstract values
// ---------------------------------------------------------------------------

/// Abstract value of a stored bug record: every text field as its character
/// sequence, the two optional references as optional sequences.
pub struct BugView {
    pub bug_id: Seq<char>,
    pub title: Seq<char>,
    pub description: Seq<char>,
    pub reported_by: Seq<char>,
    pub severity: Seq<char>,
    pub status: Seq<char>,
    pub assigned_to: Option<Seq<char>>,
    pub project_id: Option<Seq<char>>,
    pub created_at: Seq<char>,
}

/// Abstract value of the input shape for bug creation.
pub struct NewBugView {
    pub title: Seq<char>,
    pub description: Seq<char>,
    pub reported_by: Seq<char>,
    pub severity: Seq<char>,
    pub project_id: Option<Seq<char>>,
}

/// Abstract value of a partial update: a field that is `None` was not
/// supplied and must leave the stored value unchanged.
pub struct UpdateBugView {
    pub title: Option<Seq<char>>,
    pub description: Option<Seq<char>>,
    pub severity: Option<Seq<char>>,
    pub status: Option<Seq<char>>,
    pub assigned_to: Option<Seq<char>>,
    pub project_id: Option<Seq<char>>,
}

/// Abstract value of a stored project record.
pub struct ProjectView {
    pub project_id: Seq<char>,
    pub name: Seq<char>,
    pub description: Seq<char>,
    pub created_at: Seq<char>,
}

// ---------------------------------------------------------------------------
// Entities
// ---------------------------------------------------------------------------

/// A tracked issue record. The identifier and the creation timestamp are set
/// once at creation and never change afterwards.
#[derive(Debug)]
pub struct Bug {
    pub bug_id: String,
    pub title: String,
    pub description: String,
    pub reported_by: String,
    pub severity: String,
    pub status: String,
    pub assigned_to: Option<String>,
    pub project_id: Option<String>,
    pub created_at: String,
}

/// Input shape for creating a bug; the server supplies identifier, status and
/// creation timestamp.
#[derive(Debug)]
pub struct NewBug {
    pub title: String,
    pub description: String,
    pub reported_by: String,
    pub severity: String,
    pub project_id: Option<String>,
}

/// Input shape for a partial bug update; every field is optional.
#[derive(Debug)]
pub struct UpdateBug {
    pub title: Option<String>,
    pub description: Option<String>,
    pub severity: Option<String>,
    pub status: Option<String>,
    pub assigned_to: Option<String>,
    pub project_id: Option<String>,
}

/// A named grouping container for bugs.
#[derive(Debug)]
pub struct Project {
    pub project_id: String,
    pub name: String,
    pub description: String,
    pub created_at: String,
}

/// Input shape for creating a project.
#[derive(Debug)]
pub struct NewProject {
    pub name: String,
    pub description: String,
}

/// A login attempt: a user name and the submitted credential.
#[derive(Debug)]
pub struct LoginRequest {
    pub username: String,
    pub password: String,
}

/// Outcome of a login attempt: a status marker and, on success, an opaque
/// session token.
#[derive(Debug)]
pub struct LoginResponse {
    pub status: String,
    pub token: Option<String>,
}

/// Form input for assigning a bug to a developer.
#[derive(Debug)]
pub struct AssignBugForm {
    pub bug_id: String,
    pub developer_id: String,
}

// ---------------------------------------------------------------------------
// Views
// ---------------------------------------------------------------------------

impl View for Bug {
    type V = BugView;

    open spec fn view(&self) -> BugView {
        BugView {
            bug_id: self.bug_id@,
            title: self.title@,
            description: self.description@,
            reported_by: self.reported_by@,
            severity: self.severity@,
            status: self.status@,
            assigned_to: self.assigned_to.deep_view(),
            project_id: self.project_id.deep_view(),
            created_at: self.created_at@,
        }
    }
}

impl DeepView for Bug {
    type V = BugView;

    open spec fn deep_view(&self) -> BugView {
        self.view()
    }
}

impl View for NewBug {
    type V = NewBugView;

    open spec fn view(&self) -> NewBugView {
        NewBugView {
            title: self.title@,
            description: self.description@,
            reported_by: self.reported_by@,
            severity: self.severity@,
            project_id: self.project_id.deep_view(),
        }
    }
}

impl View for UpdateBug {
    type V = UpdateBugView;

    open spec fn view(&self) -> UpdateBugView {
        UpdateBugView {
            title: self.title.deep_view(),
            description: self.description.deep_view(),
            severity: self.severity.deep_view(),
            status: self.status.deep_view(),
            assigned_to: self.assigned_to.deep_view(),
            project_id: self.project_id.deep_view(),
        }
    }
}

impl View for Project {
    type V = ProjectView;

    open spec fn view(&self) -> ProjectView {
        ProjectView {
            project_id: self.project_id@,
            name: self.name@,
            description: self.description@,
            created_at: self.created_at@,
        }
    }
}

impl DeepView for Project {
    type V = ProjectView;

    open spec fn deep_view(&self) -> ProjectView {
        self.view()
    }
}

// ---------------------------------------------------------------------------
// Copying
// ---------------------------------------------------------------------------

/// Copies an optional string, one for one.
pub(crate) fn clone_opt(o: &Option<String>) -> (r: Option<String>)
    ensures
        r == *o,
{
    match o {
        Some(s) => Some(s.clone()),
        None => None,
    }
}

impl Clone for Bug {
    fn clone(&self) -> (r: Self)
        ensures
            r == *self,
    {
        Bug {
            bug_id: self.bug_id.clone(),
            title: self.title.clone(),
            description: self.description.clone(),
            reported_by: self.reported_by.clone(),
            severity: self.severity.clone(),
            status: self.status.clone(),
            assigned_to: clone_opt(&self.assigned_to),
            project_id: clone_opt(&self.project_id),
            created_at: self.created_at.clone(),
        }
    }
}

impl Clone for Project {
    fn clone(&self) -> (r: Self)
        ensures
            r == *self,
    {
        Project {
            project_id: self.project_id.clone(),
            name: self.name.clone(),
            description: self.description.clone(),
            created_at: self.created_at.clone(),
        }
    }
}

// ---------------------------------------------------------------------------
// Creation defaults
// ---------------------------------------------------------------------------

/// The full bug row created from an input shape and a server-chosen
/// identifier and timestamp: status is forced to "open" and no assignee is
/// set.
pub open spec fn spec_new_bug(n: NewBugView, id: Seq<char>, at: Seq<char>) -> BugView {
    BugView {
        bug_id: id,
        title: n.title,
        description: n.description,
        reported_by: n.reported_by,
        severity: n.severity,
        status: "open"@,
        assigned_to: None,
        project_id: n.project_id,
        created_at: at,
    }
}

/// The full project row created from an input shape and a server-chosen
/// identifier and timestamp.
pub open spec fn spec_new_project(
    name: Seq<char>,
    description: Seq<char>,
    id: Seq<char>,
    at: Seq<char>,
) -> ProjectView {
    ProjectView { project_id: id, name: name, description: description, created_at: at }
}

impl NewBug {
    /// Builds the row to persist for this input: the given identifier and
    /// timestamp, status "open", no assignee.
    pub fn into_bug(&self, bug_id: String, created_at: String) -> (b: Bug)
        ensures
            b@ == spec_new_bug(self@, bug_id@, created_at@),
    {
        Bug {
            bug_id: bug_id,
            title: self.title.clone(),
            description: self.description.clone(),
            reported_by: self.reported_by.clone(),
            severity: self.severity.clone(),
            status: String::from_str("open"),
            assigned_to: None,
            project_id: clone_opt(&self.project_id),
            created_at: created_at,
        }
    }
}

impl NewProject {
    /// Builds the row to persist for this input with the given identifier and
    /// timestamp.
    pub fn into_project(&self, project_id: String, created_at: String) -> (p: Project)
        ensures
            p@ == spec_new_project(self.name@, self.description@, project_id@, created_at@),
    {
        Project {
            project_id: project_id,
            name: self.name.clone(),
            description: self.description.clone(),
            created_at: created_at,
        }
    }
}

// ---------------------------------------------------------------------------
// Merge-on-update
// ---------------------------------------------------------------------------

/// Merge-on-update semantics: a field present in the update overrides the
/// stored value, an absent field keeps it. The identifier, the reporter and
/// the creation timestamp are never part of an update and always survive.
pub open spec fn spec_merge(b: BugView, u: UpdateBugView) -> BugView {
    BugView {
        bug_id: b.bug_id,
        title: match u.title {
            Some(t) => t,
            None => b.title,
        },
        description: match u.description {
            Some(d) => d,
            None => b.description,
        },
        reported_by: b.reported_by,
        severity: match u.severity {
            Some(s) => s,
            None => b.severity,
        },
        status: match u.status {
            Some(s) => s,
            None => b.status,
        },
        assigned_to: match u.assigned_to {
            Some(a) => Some(a),
            None => b.assigned_to,
        },
        project_id: match u.project_id {
            Some(p) => Some(p),
            None => b.project_id,
        },
        created_at: b.created_at,
    }
}

impl UpdateBug {
    /// Applies this partial update to a stored bug, field by field.
    pub fn apply_to(&self, existing: &Bug) -> (merged: Bug)
        ensures
            merged@ == spec_merge(existing@, self@),
    {
        Bug {
            bug_id: existing.bug_id.clone(),
            title: match &self.title {
                Some(t) => t.clone(),
                None => existing.title.clone(),
            },
            description: match &self.description {
                Some(d) => d.clone(),
                None => existing.description.clone(),
            },
            reported_by: existing.reported_by.clone(),
            severity: match &self.severity {
                Some(s) => s.clone(),
                None => existing.severity.clone(),
            },
            status: match &self.status {
                Some(s) => s.clone(),
                None => existing.status.clone(),
            },
            assigned_to: match &self.assigned_to {
                Some(a) => Some(a.clone()),
                None => clone_opt(&existing.assigned_to),
            },
            project_id: match &self.project_id {
                Some(p) => Some(p.clone()),
                None => clone_opt(&existing.project_id),
            },
            created_at: existing.created_at.clone(),
        }
    }
}

/// An update with every field absent leaves the record exactly as it was.
pub proof fn lemma_empty_update_is_identity(b: BugView, u: UpdateBugView)
    requires
        u.title is None,
        u.description is None,
        u.severity is None,
        u.status is None,
        u.assigned_to is None,
        u.project_id is None,
    ensures
        spec_merge(b, u) == b,
{
}

/// An update that carries only a status changes the status and nothing else.
pub proof fn lemma_status_only_update(b: BugView, u: UpdateBugView, s: Seq<char>)
    requires
        u.title is None,
        u.description is None,
        u.severity is None,
        u.status == Some(s),
        u.assigned_to is None,
        u.project_id is None,
    ensures
        spec_merge(b, u) == (BugView { status: s, ..b }),
{
}

} // verus!
