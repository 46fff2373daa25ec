//! Where normalized Odin records are kept: the repository port and the
//! in-memory repository used by fast tests.
use vstd::prelude::*;
use crate::documents::{
    GjallarAffordanceRecord, OdinInterfaceRecord, OdinObservationStreamRecord, OdinRecords,
    OdinServiceRecord, OdinTranslationRouteRecord, OdinVerseRecord,
};
use crate::odin_core::ports::PortError;

verus! {

/// A store that accepts a full set of normalized records.
pub trait OdinRepository {
    fn persist_records(&mut self, records: &OdinRecords) -> Result<(), PortError>;
}

/// Keeps the last persisted records in memory.
pub struct InMemoryOdinRepository {
    pub records: OdinRecords,
}

/// No snapshot and no records of any kind.
pub open spec fn records_empty(r: OdinRecords) -> bool {
    &&& r.snapshot is None
    &&& r.verses@.len() == 0
    &&& r.services@.len() == 0
    &&& r.interfaces@.len() == 0
    &&& r.observation_streams@.len() == 0
    &&& r.translation_routes@.len() == 0
    &&& r.gjallar_affordances@.len() == 0
}

impl Default for InMemoryOdinRepository {
    fn default() -> (r: Self)
        ensures
            records_empty(r.records),
    {
        InMemoryOdinRepository {
            records: OdinRecords {
                snapshot: None,
                verses: Vec::<OdinVerseRecord>::new(),
                services: Vec::<OdinServiceRecord>::new(),
                interfaces: Vec::<OdinInterfaceRecord>::new(),
                observation_streams: Vec::<OdinObservationStreamRecord>::new(),
                translation_routes: Vec::<OdinTranslationRouteRecord>::new(),
                gjallar_affordances: Vec::<GjallarAffordanceRecord>::new(),
            },
        }
    }
}

impl OdinRepository for InMemoryOdinRepository {
    /// Replaces whatever was kept with a copy of `records`; never fails.
    fn persist_records(&mut self, records: &OdinRecords) -> (r: Result<(), PortError>)
        ensures
            r is Ok,
            final(self).records.same_as(records),
    {
        self.records = records.duplicate();
        Ok(())
    }
}

/// Persists `records` through the repository and hands them back unchanged;
/// an error from the repository is passed on as it came.
pub fn persist_pipeline_records<R: OdinRepository>(repository: &mut R, records: OdinRecords) -> (r:
    Result<OdinRecords, PortError>)
    ensures
        r matches Ok(x) ==> x == records,
{
    match repository.persist_records(&records) {
        Ok(()) => Ok(records),
        Err(e) => Err(e),
    }
}

} // verus!
