use vstd::prelude::*;

use crate::model::{Issue, Project};

verus! {

/// The value that `str::parse::<i32>` gives for the text `s`, if any.
pub uninterp spec fn parsed_i32(s: Seq<char>) -> Option<i32>;

/// Relies on `str::parse::<i32>`: its result depends on the text alone, and
/// it does not panic.
#[verifier::external_body]
fn parse_i32(s: &str) -> (r: Option<i32>)
    ensures
        r == parsed_i32(s@),
{
    s.parse::<i32>().ok()
}

/// Why a typed issue id was not accepted.
#[derive(Clone, Copy, Debug, PartialEq, Eq, Structural)]
pub enum IdInputError {
    /// The text is not a number.
    NotANumber,
    /// No issue has that id.
    UnknownIssue,
}

/// Whether some issue has the id `id`.
pub open spec fn has_issue_id(issues: Seq<Issue>, id: i32) -> bool {
    exists|k: int| 0 <= k < issues.len() && #[trigger] issues[k].id == id
}

/// The verdict on a typed id, once read as a number or not.
pub open spec fn id_verdict(issues: Seq<Issue>, parsed: Option<i32>) -> Result<i32, IdInputError> {
    match parsed {
        None => Err(IdInputError::NotANumber),
        Some(id) => if has_issue_id(issues, id) {
            Ok(id)
        } else {
            Err(IdInputError::UnknownIssue)
        },
    }
}

/// Whether some issue has the id `id`.
pub fn contains_issue_id(issues: &Vec<Issue>, id: i32) -> (r: bool)
    ensures
        r == has_issue_id(issues@, id),
{
    let mut k: usize = 0;
    while k < issues.len()
        invariant
            k <= issues.len(),
            forall|j: int| 0 <= j < k ==> issues@[j].id != id,
        decreases issues.len() - k,
    {
        if issues[k].id == id {
            return true;
        }
        k = k + 1;
    }
    false
}

/// Accepts a number read from a boundary of the range strategy only when it
/// is the id of an existing issue.
pub fn check_issue_id(issues: &Vec<Issue>, parsed: Option<i32>) -> (r: Result<i32, IdInputError>)
    ensures
        r == id_verdict(issues@, parsed),
{
    match parsed {
        None => Err(IdInputError::NotANumber),
        Some(id) => if contains_issue_id(issues, id) {
            Ok(id)
        } else {
            Err(IdInputError::UnknownIssue)
        },
    }
}

/// Reads a typed boundary of the range strategy: the text must be a number
/// that is the id of an existing issue.
pub fn validate_issue_id(issues: &Vec<Issue>, input: &str) -> (r: Result<i32, IdInputError>)
    ensures
        r == id_verdict(issues@, parsed_i32(input@)),
{
    let parsed = parse_i32(input);
    check_issue_id(issues, parsed)
}

/// The position of the first project whose web address is `url`.
pub fn find_project(projects: &Vec<Project>, url: &String) -> (r: Option<usize>)
    ensures
        r matches Some(k) ==> k < projects@.len() && projects@[k as int].web_url@ == url@
            && forall|j: int| 0 <= j < k ==> projects@[j].web_url@ != url@,
        r is None ==> forall|j: int| 0 <= j < projects@.len() ==> projects@[j].web_url@ != url@,
{
    let mut k: usize = 0;
    while k < projects.len()
        invariant
            k <= projects.len(),
            forall|j: int| 0 <= j < k ==> projects@[j].web_url@ != url@,
        decreases projects.len() - k,
    {
        if projects[k].web_url == *url {
            return Some(k);
        }
        k = k + 1;
    }
    None
}

} // verus!
