//! The one slot that holds the latest analysis.
use vstd::prelude::*;
use crate::analysis::AnalysisResult;
use crate::classify::ChunkStats;

verus! {

/// Holds the most recent analysis, or none before the first one. A new
/// analysis replaces the old one whole; there is no partial update.
#[derive(Debug)]
pub struct AnalysisStore {
    current: Option<AnalysisResult>,
}

impl View for AnalysisStore {
    type V = Option<Map<(i32, i32, i32), ChunkStats>>;

    closed spec fn view(&self) -> Option<Map<(i32, i32, i32), ChunkStats>> {
        match self.current {
            Some(analysis) => Some(analysis@),
            None => None,
        }
    }
}

impl AnalysisStore {
    /// A store that holds no analysis yet.
    pub fn new() -> (store: AnalysisStore)
        ensures
            store@ is None,
    {
        AnalysisStore { current: None }
    }

    /// Puts `analysis` in the place of whatever the store held.
    pub fn replace(&mut self, analysis: AnalysisResult)
        ensures
            final(self)@ == Some(analysis@),
    {
        self.current = Some(analysis);
    }

    /// The analysis that the store holds, if any.
    pub fn read(&self) -> (current: Option<&AnalysisResult>)
        ensures
            match current {
                Some(analysis) => self@ == Some(analysis@),
                None => self@ is None,
            },
    {
        self.current.as_ref()
    }
}

} // verus!
