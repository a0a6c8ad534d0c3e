//! The fixed set of actions the policy engine recognizes, and the
//! capabilities a proof of each action grants.

use vstd::prelude::*;

use crate::witnesses;
use crate::witnesses::{Action, AuthWitness};

verus! {

/// Creating a list; grants create-list and create-team, because creating a
/// list implicitly creates the list's associated reader and editor teams.
pub struct CreateList;

impl Action for CreateList {
    open spec fn name_spec() -> Seq<char> {
        "CreateList"@
    }

    fn name() -> (r: &'static str) {
        "CreateList"
    }
}

impl witnesses::CreateList for AuthWitness<CreateList> {}

impl witnesses::CreateTeam for AuthWitness<CreateList> {}

/// Reading one list; grants read-list.
pub struct GetList;

impl Action for GetList {
    open spec fn name_spec() -> Seq<char> {
        "GetList"@
    }

    fn name() -> (r: &'static str) {
        "GetList"
    }
}

impl witnesses::ReadList for AuthWitness<GetList> {}

/// Reading every list; grants read-all.
pub struct GetLists;

impl Action for GetLists {
    open spec fn name_spec() -> Seq<char> {
        "GetLists"@
    }

    fn name() -> (r: &'static str) {
        "GetLists"
    }
}

impl witnesses::ReadAll for AuthWitness<GetLists> {}

/// Updating a list's metadata; grants write-list.
pub struct UpdateList;

impl Action for UpdateList {
    open spec fn name_spec() -> Seq<char> {
        "UpdateList"@
    }

    fn name() -> (r: &'static str) {
        "UpdateList"
    }
}

impl witnesses::WriteList for AuthWitness<UpdateList> {}

/// Deleting the list just authorized; grants delete.
pub struct DeleteList;

impl Action for DeleteList {
    open spec fn name_spec() -> Seq<char> {
        "DeleteList"@
    }

    fn name() -> (r: &'static str) {
        "DeleteList"
    }
}

impl witnesses::Delete for AuthWitness<DeleteList> {}

/// Adding a task to a list; grants write-list.
pub struct CreateTask;

impl Action for CreateTask {
    open spec fn name_spec() -> Seq<char> {
        "CreateTask"@
    }

    fn name() -> (r: &'static str) {
        "CreateTask"
    }
}

impl witnesses::WriteList for AuthWitness<CreateTask> {}

/// Updating a task on a list; grants write-list.
pub struct UpdateTask;

impl Action for UpdateTask {
    open spec fn name_spec() -> Seq<char> {
        "UpdateTask"@
    }

    fn name() -> (r: &'static str) {
        "UpdateTask"
    }
}

impl witnesses::WriteList for AuthWitness<UpdateTask> {}

/// Removing a task from a list; grants write-list.
pub struct DeleteTask;

impl Action for DeleteTask {
    open spec fn name_spec() -> Seq<char> {
        "DeleteTask"@
    }

    fn name() -> (r: &'static str) {
        "DeleteTask"
    }
}

impl witnesses::WriteList for AuthWitness<DeleteTask> {}

/// Editing a list's sharing; grants write-team-user and read-list, because
/// the sharing handler must inspect the list while mutating the recipient.
pub struct EditShare;

impl Action for EditShare {
    open spec fn name_spec() -> Seq<char> {
        "EditShare"@
    }

    fn name() -> (r: &'static str) {
        "EditShare"
    }
}

impl witnesses::WriteTeamUser for AuthWitness<EditShare> {}

impl witnesses::ReadList for AuthWitness<EditShare> {}

} // verus!
