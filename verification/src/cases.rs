//! Scans that are kept as cases, and the rights that a scan needs.

use crate::model::RssError;
use crate::seqs::{filter_mapped, lemma_filter_mapped_step};
use crate::sessions::ScanSnapshot;
use crate::sort::{
    by_text, lemma_by_text, lemma_reversed, reversed, stable_sort_by, stable_sorted, str_before,
};
use crate::text::{concat2, owned};
use vstd::prelude::*;
use vstd::string::*;

verus! {

// ---------------------------------------------------------------------------
// Cases.

/// Where cases are kept.
#[derive(Debug)]
pub struct CaseStore {
    pub root: String,
}

/// By the time at which a scan started.
pub open spec fn start_of() -> spec_fn(ScanSnapshot) -> Seq<char> {
    |s: ScanSnapshot| s.summary.started_at@
}

/// The latest scan first.
pub open spec fn latest_first() -> spec_fn(ScanSnapshot, ScanSnapshot) -> bool {
    reversed(by_text(start_of()))
}

/// The case that a file holds, where it holds one.
pub open spec fn readable_case() -> spec_fn(Option<ScanSnapshot>) -> Option<ScanSnapshot> {
    |found: Option<ScanSnapshot>| found
}

impl CaseStore {
    pub fn new(root: &str) -> (r: Self)
        ensures
            r.root@ == root@,
    {
        CaseStore { root: owned(root) }
    }

    /// The name of the file that a scan is kept in.
    pub fn save_snapshot(&self, snapshot: &ScanSnapshot) -> (r: String)
        ensures
            r@ == snapshot.summary.scan_id@ + ".json"@,
    {
        concat2(snapshot.summary.scan_id.as_str(), ".json")
    }

    /// Whether a file with such an extension may hold a case.
    pub fn holds_case(&self, extension: Option<&str>) -> (r: bool)
        ensures
            r == (extension matches Some(e) && e@ == "json"@),
    {
        match extension {
            Some(e) => *e == *"json",
            None => false,
        }
    }

    /// The cases in files, the latest first; a file that holds none is passed over.
    pub fn list_snapshots(&self, found: Vec<Option<ScanSnapshot>>) -> (r: Vec<ScanSnapshot>)
        ensures
            stable_sorted(filter_mapped(found@, readable_case()), r@, latest_first()),
    {
        let ghost all = found@;
        let n: usize = found.len();
        let mut rest = crate::seqs::turn_around(found);
        let mut cases: Vec<ScanSnapshot> = Vec::new();
        assert(all.subrange(0, 0) =~= seq![]);
        while rest.len() > 0
            invariant
                n == all.len(),
                rest@.len() <= n,
                forall|k: int| 0 <= k < rest@.len() ==> #[trigger] rest@[k] == all[n - 1 - k],
                cases@ == filter_mapped(all.subrange(0, n - rest@.len()), readable_case()),
            decreases rest@.len(),
        {
            let ghost i = n - rest@.len();
            proof {
                lemma_filter_mapped_step(all, readable_case(), i);
            }
            if let Some(one) = rest.pop() {
                assert(one == all[i]);
                if let Some(case) = one {
                    cases.push(case);
                }
            }
        }
        assert(all.subrange(0, n as int) =~= all);
        let before = |a: &ScanSnapshot, b: &ScanSnapshot| -> (r: bool)
            ensures
                r == latest_first()(*a, *b),
            { str_before(b.summary.started_at.as_str(), a.summary.started_at.as_str()) };
        proof {
            lemma_by_text(start_of());
            lemma_reversed(by_text(start_of()));
        }
        stable_sort_by(cases, before, Ghost(latest_first()))
    }
}

// ---------------------------------------------------------------------------
// Rights.

/// With which rights the process runs.
#[derive(Debug, Clone, Copy, PartialEq, Eq, Structural)]
pub struct SecurityContext {
    pub is_elevated: bool,
}

/// With which rights the process runs, from what the system answered.
pub fn security_context(elevated: Result<bool, String>) -> (r: Result<SecurityContext, RssError>)
    ensures
        match elevated {
            Ok(is_elevated) => r == Ok::<_, RssError>(SecurityContext { is_elevated }),
            Err(e) => r matches Err(RssError::Message(m)) && m@
                == "Failed to query elevation state: "@ + e@,
        },
{
    match elevated {
        Ok(is_elevated) => Ok(SecurityContext { is_elevated }),
        Err(e) => Err(
            RssError::Message(concat2("Failed to query elevation state: ", e.as_str())),
        ),
    }
}

/// Raw reads need the rights of an administrator.
pub fn ensure_elevated(elevated: Result<bool, String>) -> (r: Result<(), RssError>)
    ensures
        match elevated {
            Ok(true) => r is Ok,
            Ok(false) => r matches Err(RssError::Message(m)) && m@
                == "Administrator privileges are required for raw volume access."@,
            Err(e) => r matches Err(RssError::Message(m)) && m@
                == "Failed to query elevation state: "@ + e@,
        },
{
    match security_context(elevated) {
        Ok(context) => if context.is_elevated {
            Ok(())
        } else {
            Err(
                RssError::Message(
                    owned("Administrator privileges are required for raw volume access."),
                ),
            )
        },
        Err(e) => Err(e),
    }
}

} // verus!
