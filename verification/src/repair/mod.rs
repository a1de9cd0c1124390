//! Validation and repair of the structure of a presentation: missing parts, broken
//! relationships, malformed XML, slide references and content types.
pub mod validator;
pub mod repairer;

pub use validator::PptxValidator;
pub use repairer::PptxRepairer;

use vstd::prelude::*;

verus! {

/// Severity of a validation issue.
#[non_exhaustive]
#[derive(Debug, Clone, Copy, PartialEq, Eq, Hash, Structural)]
pub enum Severity {
    Critical,
    High,
    Medium,
    Low,
}

/// Category of a validation issue.
#[non_exhaustive]
#[derive(Debug, Clone, Copy, PartialEq, Eq, Hash, Structural)]
pub enum IssueCategory {
    MissingPart,
    InvalidXml,
    BrokenRelationship,
    MissingSlideRef,
    OrphanSlide,
    InvalidContentType,
    MissingNamespace,
}

/// A single validation issue.
#[derive(Debug, Clone)]
pub struct ValidationIssue {
    pub severity: Severity,
    pub category: IssueCategory,
    pub description: String,
    pub location: Option<String>,
}

/// What an issue holds.
pub struct IssueView {
    pub severity: Severity,
    pub category: IssueCategory,
    pub description: Seq<char>,
    pub location: Option<Seq<char>>,
}

impl View for ValidationIssue {
    type V = IssueView;

    open spec fn view(&self) -> IssueView {
        IssueView {
            severity: self.severity,
            category: self.category,
            description: self.description@,
            location: match &self.location { Some(s) => Some(s@), None => None },
        }
    }
}

/// The views of a list of issues.
pub open spec fn issues_view(v: Seq<ValidationIssue>) -> Seq<IssueView> {
    v.map_values(|i: ValidationIssue| i@)
}

/// An issue.
pub open spec fn issue(severity: Severity, category: IssueCategory, description: Seq<char>, location: Option<Seq<char>>) -> IssueView {
    IssueView { severity, category, description, location }
}

impl ValidationIssue {
    /// An issue with the given fields.
    pub fn new(severity: Severity, category: IssueCategory, description: &str, location: Option<String>) -> (r: Self)
        ensures
            r@ == issue(severity, category, description@, match location { Some(s) => Some(s@), None => None }),
    {
        ValidationIssue { severity, category, description: description.to_owned(), location }
    }
}

/// The outcome of a repair.
#[derive(Debug, Clone)]
pub struct RepairReport {
    /// The issues found before repairing.
    pub issues_found: Vec<ValidationIssue>,
    /// One entry per change made.
    pub issues_fixed: Vec<ValidationIssue>,
    /// Whether validating after the repair finds no issue.
    pub is_valid: bool,
}

/// Appends issues.
pub fn append_issues(out: &mut Vec<ValidationIssue>, more: Vec<ValidationIssue>)
    ensures
        issues_view(final(out)@) == issues_view(old(out)@) + issues_view(more@),
{
    let mut i: usize = 0;
    let mut more = more;
    let ghost m = more@;
    while i < more.len()
        invariant
            i <= more.len(),
            more@ == m,
            issues_view(out@) == issues_view(old(out)@) + issues_view(m.take(i as int)),
        decreases more.len() - i,
    {
        let ghost before = out@;
        out.push(more[i].clone_issue());
        assert(issues_view(m.take(i as int + 1)) =~= issues_view(m.take(i as int)).push(m[i as int]@));
        assert(issues_view(out@) =~= issues_view(before).push(m[i as int]@));
        i = i + 1;
    }
    assert(m.take(i as int) =~= m);
}

impl ValidationIssue {
    /// A copy of this issue.
    pub fn clone_issue(&self) -> (r: Self)
        ensures
            r@ == self@,
    {
        ValidationIssue {
            severity: self.severity,
            category: self.category,
            description: self.description.clone(),
            location: match &self.location { Some(s) => Some(s.clone()), None => None },
        }
    }
}

} // verus!
