//! Findings reported by the checks, and the interface every check offers.

use vstd::prelude::*;
use crate::syntax::SourceFile;

verus! {

/// How serious a finding is.
#[derive(PartialEq, Eq, Structural, Clone, Copy, Debug)]
pub enum Severity {
    Low,
    Medium,
    High,
}

/// One problem found in a source file.
#[derive(Debug)]
pub struct Finding {
    pub check_name: String,
    pub severity: Severity,
    pub file_path: String,
    pub line: usize,
    pub function_name: String,
    pub description: String,
}

/// A finding with its text as character sequences.
pub struct FindingView {
    pub check_name: Seq<char>,
    pub severity: Severity,
    pub file_path: Seq<char>,
    pub line: usize,
    pub function_name: Seq<char>,
    pub description: Seq<char>,
}

impl View for Finding {
    type V = FindingView;

    open spec fn view(&self) -> FindingView {
        FindingView {
            check_name: self.check_name@,
            severity: self.severity,
            file_path: self.file_path@,
            line: self.line,
            function_name: self.function_name@,
            description: self.description@,
        }
    }
}

/// The views of a sequence of findings.
pub open spec fn views(s: Seq<Finding>) -> Seq<FindingView> {
    s.map_values(|f: Finding| f@)
}

/// A finding with an empty file path.
pub open spec fn fv(check: Seq<char>, sev: Severity, line: usize, func: Seq<char>, desc: Seq<char>) -> FindingView {
    FindingView {
        check_name: check,
        severity: sev,
        file_path: Seq::empty(),
        line,
        function_name: func,
        description: desc,
    }
}

pub proof fn lemma_views_push(s: Seq<Finding>, f: Finding)
    ensures views(s.push(f)) == views(s).push(f@),
{
    assert(views(s.push(f)) =~= views(s).push(f@));
}

pub proof fn lemma_views_append(a: Seq<Finding>, b: Seq<Finding>)
    ensures views(a + b) == views(a) + views(b),
{
    assert(views(a + b) =~= views(a) + views(b));
}

/// Builds a finding with an empty file path.
pub fn new_finding(check: &str, sev: Severity, line: usize, func: &str, desc: String) -> (r: Finding)
    ensures r@ == fv(check@, sev, line, func@, desc@),
{
    let f = Finding {
        check_name: String::from_str(check),
        severity: sev,
        file_path: String::new(),
        line,
        function_name: String::from_str(func),
        description: desc,
    };
    f
}

/// Every finding names the check `name`, has severity `sev`, and an empty
/// file path.
pub open spec fn tagged(s: Seq<FindingView>, name: Seq<char>, sev: Severity) -> bool {
    forall|i: int| 0 <= i < s.len() ==> #[trigger] tag_ok(s[i], name, sev)
}

pub open spec fn tag_ok(f: FindingView, name: Seq<char>, sev: Severity) -> bool {
    f.check_name == name && f.severity == sev && f.file_path.len() == 0
}

pub proof fn lemma_tagged_add(a: Seq<FindingView>, b: Seq<FindingView>, name: Seq<char>, sev: Severity)
    requires
        tagged(a, name, sev),
        tagged(b, name, sev),
    ensures tagged(a + b, name, sev),
{
    assert forall|i: int| 0 <= i < (a + b).len() implies #[trigger] tag_ok((a + b)[i], name, sev) by {
        if i < a.len() {
            assert((a + b)[i] == a[i]);
        } else {
            assert((a + b)[i] == b[i - a.len()]);
        }
    }
}

/// A static check over a source file.
pub trait Check {
    /// The check's name, as it appears in each of its findings.
    spec fn spec_name(&self) -> Seq<char>;

    /// What the check reports for `file`, whose text is `source`.
    spec fn spec_run(&self, file: &SourceFile, source: Seq<char>) -> Seq<FindingView>;

    fn name(&self) -> (r: &str)
        ensures r@ == self.spec_name();

    fn run(&self, file: &SourceFile, source: &str) -> (r: Vec<Finding>)
        ensures views(r@) == self.spec_run(file, source@);
}

} // verus!
