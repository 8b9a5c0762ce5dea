//! The terminal report lines emitted for each job.
use vstd::prelude::*;
use vstd::string::*;
use crate::job::Job;

verus! {

/// `"<id> success <locator> <destination>"`.
pub open spec fn success_text(id: Seq<char>, locator: Seq<char>, destination: Seq<char>) -> Seq<char> {
    id + " success "@ + locator + " "@ + destination
}

/// `"<id> error Too many timeouts, retries exhausted."`.
pub open spec fn exhausted_text(id: Seq<char>) -> Seq<char> {
    id + " error Too many timeouts, retries exhausted."@
}

/// `"<id> error Unknown error while <operation>: <detail>"`.
pub open spec fn unknown_text(id: Seq<char>, operation: Seq<char>, detail: Seq<char>) -> Seq<char> {
    id + " error Unknown error while "@ + operation + ": "@ + detail
}

/// The success report of a job.
pub fn success_line(job: &Job) -> (r: String)
    ensures
        r@ == success_text(job.id@, job.locator@, job.destination@),
{
    let mut r = String::from_str(job.id.as_str());
    r.append(" success ");
    r.append(job.locator.as_str());
    r.append(" ");
    r.append(job.destination.as_str());
    r
}

/// The report of a job whose retry budget ran out.
pub fn exhausted_line(job: &Job) -> (r: String)
    ensures
        r@ == exhausted_text(job.id@),
{
    let mut r = String::from_str(job.id.as_str());
    r.append(" error Too many timeouts, retries exhausted.");
    r
}

/// The report of a job that failed with a terminal, unclassified error.
pub fn unknown_line(job: &Job, operation: &str, detail: &str) -> (r: String)
    ensures
        r@ == unknown_text(job.id@, operation@, detail@),
{
    let mut r = String::from_str(job.id.as_str());
    r.append(" error Unknown error while ");
    r.append(operation);
    r.append(": ");
    r.append(detail);
    r
}

} // verus!
