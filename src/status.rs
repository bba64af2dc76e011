//! The closed set of document statuses and their text form.

use vstd::prelude::*;

verus! {

/// Where a document stands in its review cycle.
#[derive(Clone, Copy, Debug, PartialEq, Eq, Structural)]
pub enum DocStatus {
    Draft,
    Reviewed,
    Signed,
}

/// The text that names a status, as it is stored and sent on the wire.
pub open spec fn status_name(st: DocStatus) -> Seq<char> {
    match st {
        DocStatus::Draft => "Draft"@,
        DocStatus::Reviewed => "Reviewed"@,
        DocStatus::Signed => "Signed"@,
    }
}

/// The status that a text names, if it names one: the three names are matched
/// exactly, case included.
pub open spec fn status_of(s: Seq<char>) -> Option<DocStatus> {
    if s == "Draft"@ {
        Some(DocStatus::Draft)
    } else if s == "Reviewed"@ {
        Some(DocStatus::Reviewed)
    } else if s == "Signed"@ {
        Some(DocStatus::Signed)
    } else {
        None
    }
}

/// The three names are pairwise distinct.
pub proof fn lemma_names_distinct()
    ensures
        "Draft"@ != "Reviewed"@,
        "Draft"@ != "Signed"@,
        "Reviewed"@ != "Signed"@,
{
    reveal_strlit("Draft");
    reveal_strlit("Reviewed");
    reveal_strlit("Signed");
    assert("Draft"@.len() != "Reviewed"@.len());
    assert("Draft"@[0] != "Signed"@[0]);
    assert("Reviewed"@.len() != "Signed"@.len());
}

/// Reading back the name of a status gives that status.
pub proof fn lemma_name_round_trip(st: DocStatus)
    ensures
        status_of(status_name(st)) == Some(st),
{
    lemma_names_distinct();
}

/// A text is accepted exactly when it is the name of some status.
pub proof fn lemma_accepted_texts_are_names(s: Seq<char>)
    ensures
        status_of(s) matches Some(st) ==> status_name(st) == s,
        status_of(s) is None ==> forall|st: DocStatus| status_name(st) != s,
{
    lemma_names_distinct();
}

impl DocStatus {
    /// The name of this status.
    pub fn as_str(&self) -> (r: &'static str)
        ensures
            r@ == status_name(*self),
    {
        match self {
            DocStatus::Draft => "Draft",
            DocStatus::Reviewed => "Reviewed",
            DocStatus::Signed => "Signed",
        }
    }

    /// The status named by `s`, or `None` when `s` is not one of the three names.
    pub fn parse(s: &str) -> (r: Option<DocStatus>)
        ensures
            r == status_of(s@),
    {
        let text = s.to_owned();
        if text == String::from_str("Draft") {
            Some(DocStatus::Draft)
        } else if text == String::from_str("Reviewed") {
            Some(DocStatus::Reviewed)
        } else if text == String::from_str("Signed") {
            Some(DocStatus::Signed)
        } else {
            None
        }
    }
}

} // verus!
