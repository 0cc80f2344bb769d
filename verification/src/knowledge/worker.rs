//! The worker that searches the knowledge base: of the searches that wait, it
//! makes only the newest.
use vstd::prelude::*;

use crate::knowledge::types::{
    KnowledgeError, KnowledgeErrorModel, KnowledgeSearchRequest, KnowledgeSearchRequestModel,
    KnowledgeSearchResult, KnowledgeSearchResultModel, KnowledgeWorkerStats, QueryReport,
    QueryReportModel,
};

verus! {

/// The worker and its counts.
#[derive(Clone, Copy, Debug, PartialEq, Eq, Structural)]
pub struct KnowledgeWorker {
    pub stats: KnowledgeWorkerStats,
}

/// The outcome of a search, as it is handed on.
pub open spec fn outcome(
    request: KnowledgeSearchRequestModel,
    report: Result<QueryReportModel, KnowledgeErrorModel>,
) -> KnowledgeSearchResultModel {
    KnowledgeSearchResultModel {
        search_id: request.search_id,
        turn_id: request.turn_id,
        query: request.query,
        report: match report {
            Ok(found) => Ok(found),
            Err(error) => Err(error.words()),
        },
    }
}

/// The counts after the newest of `waiting` searches was chosen.
pub open spec fn counted(stats: KnowledgeWorkerStats, waiting: nat) -> KnowledgeWorkerStats {
    KnowledgeWorkerStats {
        searches: (stats.searches + 1) as u64,
        coalesced: (stats.coalesced + waiting - 1) as u64,
        ..stats
    }
}

/// The value of what a search came to.
pub open spec fn report_model(report: Result<QueryReport, KnowledgeError>) -> Result<
    QueryReportModel,
    KnowledgeErrorModel,
> {
    match report {
        Ok(found) => Ok(found@),
        Err(error) => Err(error@),
    }
}

impl Default for KnowledgeWorker {
    fn default() -> (r: Self)
        ensures
            r.stats == (KnowledgeWorkerStats { searches: 0, failed: 0, coalesced: 0 }),
    {
        KnowledgeWorker { stats: KnowledgeWorkerStats::default() }
    }
}

impl KnowledgeWorker {
    /// Whether `count` more searches can be counted.
    pub fn can_go_on(&self, count: usize) -> (r: bool)
        ensures
            r == self.stats.has_room(count as nat),
    {
        let most = u64::MAX - count as u64;
        self.stats.searches <= most && self.stats.failed <= most && self.stats.coalesced <= most
    }

    /// Takes the searches that wait, oldest first, and returns the one that is
    /// made: the newest.
    pub fn choose_request(&mut self, waiting: Vec<KnowledgeSearchRequest>) -> (r: Option<
        KnowledgeSearchRequest,
    >)
        requires
            old(self).stats.has_room(waiting@.len()),
        ensures
            match r {
                Some(request) => waiting@.len() > 0 && request@ == waiting@.last()@
                    && final(self).stats == counted(old(self).stats, waiting@.len()),
                None => waiting@.len() == 0 && *final(self) == *old(self),
            },
    {
        if waiting.len() == 0 {
            return None;
        }
        let last: usize = waiting.len() - 1;
        self.stats.searches = self.stats.searches + 1;
        self.stats.coalesced = self.stats.coalesced + last as u64;
        Some(waiting[last].clone())
    }

    /// Takes in what a search came to, and returns it as it is handed on.
    pub fn conclude(
        &mut self,
        request: KnowledgeSearchRequest,
        report: Result<QueryReport, KnowledgeError>,
    ) -> (r: KnowledgeSearchResult)
        requires
            old(self).stats.has_room(1),
        ensures
            r@ == outcome(request@, report_model(report)),
            final(self).stats == (KnowledgeWorkerStats {
                failed: (old(self).stats.failed + if report is Err {
                    1int
                } else {
                    0int
                }) as u64,
                ..old(self).stats
            }),
    {
        let told = match report {
            Ok(found) => Ok(found),
            Err(error) => {
                self.stats.failed = self.stats.failed + 1;
                Err(error.message())
            },
        };
        KnowledgeSearchResult {
            search_id: request.search_id,
            turn_id: request.turn_id,
            query: request.query,
            report: told,
        }
    }
}

/// Every search that waits is either made or counted as left out.
pub proof fn every_request_is_counted(stats: KnowledgeWorkerStats, waiting: nat)
    requires
        waiting > 0,
        stats.has_room(waiting),
    ensures
        counted(stats, waiting).searches + counted(stats, waiting).coalesced == stats.searches
            + stats.coalesced + waiting,
{
}

/// A result answers its own request, with what was found or with the words of
/// the failure; of several requests that wait one is searched for.
pub proof fn results_answer_their_request(
    request: KnowledgeSearchRequestModel,
    report: Result<QueryReportModel, KnowledgeErrorModel>,
    stats: KnowledgeWorkerStats,
    waiting: nat,
)
    requires
        waiting > 0,
        stats.has_room(waiting),
    ensures
        ({
            let r = outcome(request, report);
            &&& r.search_id == request.search_id
            &&& r.turn_id == request.turn_id
            &&& r.query == request.query
            &&& report matches Ok(found) ==> r.report == Ok::<QueryReportModel, Seq<char>>(found)
            &&& report matches Err(error) ==> r.report == Err::<QueryReportModel, Seq<char>>(
                error.words(),
            )
        }),
        counted(stats, waiting).searches == stats.searches + 1,
        counted(stats, waiting).coalesced == stats.coalesced + waiting - 1,
        counted(stats, waiting).failed == stats.failed,
{
}

} // verus!
