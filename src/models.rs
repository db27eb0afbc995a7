use vstd::prelude::*;

verus! {

/// The account behind the stored credentials, as the service reports it.
#[derive(Debug, Clone)]
pub struct JiraUser {
    pub account_id: String,
    pub display_name: String,
    pub email_address: Option<String>,
    pub active: bool,
}

/// A project visible to the account.
#[derive(Debug, Clone)]
pub struct JiraProject {
    pub id: String,
    pub key: String,
    pub name: String,
    pub description: Option<String>,
    pub project_type_key: String,
}

/// An issue found by a search, flattened to the fields shown.
#[derive(Debug, Clone)]
pub struct JiraIssue {
    pub id: String,
    pub key: String,
    pub summary: String,
    pub status: String,
    pub assignee: Option<String>,
    pub reporter: Option<String>,
    pub created: String,
    pub updated: String,
}

} // verus!
