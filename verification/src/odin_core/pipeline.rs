//! Odin's ingest pipeline: collect raw observations through the ports and
//! normalize them into typed Odin records.
use vstd::prelude::*;
use crate::documents::{
    copy_opt_string, copy_string, copy_strings, opt_view, strings_view, GjallarAffordanceRecord,
    OdinInterfaceRecord, OdinObservationStreamRecord, OdinRecords, OdinServiceRecord,
    OdinSnapshotRecord, OdinTranslationRouteRecord, OdinVerseRecord,
};
use crate::odin_core::ports::{
    Clock, GjallarAffordanceIngest, InterfaceIngest, ObservationStreamIngest, OdinInputBatch,
    PortError, ServiceIngest, TranslationRouteIngest, VerseIngest,
};
use crate::text::{decimal, push_decimal, push_str};

verus! {

pub struct OdinIngestPipeline<V, S, I, O, T, G, C> {
    verses: V,
    services: S,
    interfaces: I,
    streams: O,
    translations: T,
    gjallar: G,
    clock: C,
}

impl<
    V: VerseIngest,
    S: ServiceIngest,
    I: InterfaceIngest,
    O: ObservationStreamIngest,
    T: TranslationRouteIngest,
    G: GjallarAffordanceIngest,
    C: Clock,
> OdinIngestPipeline<V, S, I, O, T, G, C> {
    /// The ports and the clock, in the order the pipeline reads them.
    pub closed spec fn ports(&self) -> (V, S, I, O, T, G, C) {
        (
            self.verses,
            self.services,
            self.interfaces,
            self.streams,
            self.translations,
            self.gjallar,
            self.clock,
        )
    }

    /// A pipeline over the given ports and clock.
    pub fn new(verses: V, services: S, interfaces: I, streams: O, translations: T, gjallar: G, clock: C) -> (r:
        Self)
        ensures
            r.ports() == (verses, services, interfaces, streams, translations, gjallar, clock),
    {
        OdinIngestPipeline { verses, services, interfaces, streams, translations, gjallar, clock }
    }

    /// Reads every port once, in a fixed order, stamping the batch with the
    /// clock; the first port that fails decides the error.
    pub fn collect(&self) -> (r: Result<OdinInputBatch, PortError>)
        ensures
            r matches Ok(b) ==> b.source@ == "odin.rust.ingest"@,
    {
        let observed_at = self.clock.now();
        let verses = match self.verses.observe_verses() {
            Ok(v) => v,
            Err(e) => {
                return Err(e);
            },
        };
        let services = match self.services.observe_services() {
            Ok(v) => v,
            Err(e) => {
                return Err(e);
            },
        };
        let interfaces = match self.interfaces.observe_interfaces() {
            Ok(v) => v,
            Err(e) => {
                return Err(e);
            },
        };
        let observation_streams = match self.streams.observe_streams() {
            Ok(v) => v,
            Err(e) => {
                return Err(e);
            },
        };
        let translation_routes = match self.translations.observe_translation_routes() {
            Ok(v) => v,
            Err(e) => {
                return Err(e);
            },
        };
        let gjallar_affordances = match self.gjallar.observe_gjallar_affordances() {
            Ok(v) => v,
            Err(e) => {
                return Err(e);
            },
        };
        Ok(
            OdinInputBatch {
                observed_at,
                source: "odin.rust.ingest".to_string(),
                verses,
                services,
                interfaces,
                observation_streams,
                translation_routes,
                gjallar_affordances,
            },
        )
    }
}

/// The typed records of a batch: every observation stamped with the batch
/// time, streams and routes keyed, affordances numbered, and a snapshot
/// that counts them.
pub open spec fn normalized(input: OdinInputBatch, r: OdinRecords) -> bool {
    let at = input.observed_at@;
    &&& r.snapshot matches Some(s) && {
        &&& s.snapshot_id@ == "latest"@
        &&& s.observed_at@ == at
        &&& s.verse_count == input.verses@.len() as u32
        &&& s.service_count == input.services@.len() as u32
        &&& s.interface_count == input.interfaces@.len() as u32
        &&& s.observation_stream_count == input.observation_streams@.len() as u32
        &&& s.source@ == input.source@
    }
    &&& r.verses@.len() == input.verses@.len()
    &&& forall|i: int|
        0 <= i < r.verses@.len() ==> {
            let (x, o) = (#[trigger] r.verses@[i], input.verses@[i]);
            &&& x.verse_id@ == o.verse_id@
            &&& x.name@ == o.name@
            &&& x.role@ == o.role@
            &&& x.status@ == o.status@
            &&& strings_view(x.capabilities) == strings_view(o.capabilities)
            &&& x.observed_at@ == at
        }
    &&& r.services@.len() == input.services@.len()
    &&& forall|i: int|
        0 <= i < r.services@.len() ==> {
            let (x, o) = (#[trigger] r.services@[i], input.services@[i]);
            &&& x.service_id@ == o.service_id@
            &&& x.verse_id@ == o.verse_id@
            &&& x.name@ == o.name@
            &&& x.state@ == o.state@
            &&& x.detail@ == o.detail@
            &&& x.authority@ == o.authority@
            &&& x.observed_at@ == at
        }
    &&& r.interfaces@.len() == input.interfaces@.len()
    &&& forall|i: int|
        0 <= i < r.interfaces@.len() ==> {
            let (x, o) = (#[trigger] r.interfaces@[i], input.interfaces@[i]);
            &&& x.provider_id@ == o.provider_id@
            &&& x.title@ == o.title@
            &&& x.state@ == o.state@
            &&& x.source@ == o.source@
            &&& opt_view(x.version) == opt_view(o.version)
            &&& opt_view(x.updated_at) == opt_view(o.updated_at)
            &&& x.observed_at@ == at
        }
    &&& r.observation_streams@.len() == input.observation_streams@.len()
    &&& forall|i: int|
        0 <= i < r.observation_streams@.len() ==> {
            let (x, o) = (#[trigger] r.observation_streams@[i], input.observation_streams@[i]);
            &&& x.stream_key@ == o.device_id@ + ":"@ + o.stream_id@ + ":"@ + o.kind@
            &&& x.device_id@ == o.device_id@
            &&& x.stream_id@ == o.stream_id@
            &&& x.kind@ == o.kind@
            &&& x.state@ == o.state@
            &&& x.detail@ == o.detail@
            &&& x.owner@ == o.owner@
            &&& x.observed_at@ == at
        }
    &&& r.translation_routes@.len() == input.translation_routes@.len()
    &&& forall|i: int|
        0 <= i < r.translation_routes@.len() ==> {
            let (x, o) = (#[trigger] r.translation_routes@[i], input.translation_routes@[i]);
            &&& x.route_id@ == o.source_schema@ + "=>"@ + o.target_schema@
            &&& x.source_schema@ == o.source_schema@
            &&& x.target_schema@ == o.target_schema@
            &&& x.translation_kind@ == o.translation_kind@
            &&& x.owner@ == o.owner@
            &&& x.version@ == o.version@
            &&& x.notes@ == o.notes@
        }
    &&& r.gjallar_affordances@.len() == input.gjallar_affordances@.len()
    &&& forall|i: int|
        0 <= i < r.gjallar_affordances@.len() ==> {
            let (x, o) = (#[trigger] r.gjallar_affordances@[i], input.gjallar_affordances@[i]);
            &&& x.affordance_id@ == "gjallar:"@ + o.source_record@ + ":"@ + decimal(i as nat)
            &&& x.source_record@ == o.source_record@
            &&& opt_view(x.verse_id) == opt_view(o.verse_id)
            &&& x.surface_kind@ == o.surface_kind@
            &&& x.action@ == o.action@
            &&& x.authority@ == o.authority@
            &&& x.status@ == o.status@
            &&& x.provenance@ == o.provenance@
            &&& x.observed_at@ == at
        }
}

/// Turns one batch of raw observations into typed Odin records.
pub fn normalize_odin_records(input: OdinInputBatch) -> (r: OdinRecords)
    ensures
        normalized(input, r),
{
    let at = &input.observed_at;
    let mut verses: Vec<OdinVerseRecord> = Vec::new();
    let mut i: usize = 0;
    while i < input.verses.len()
        invariant
            i <= input.verses@.len(),
            verses@.len() == i,
            forall|j: int|
                0 <= j < i ==> {
                    let (x, o) = (#[trigger] verses@[j], input.verses@[j]);
                    &&& x.verse_id@ == o.verse_id@
                    &&& x.name@ == o.name@
                    &&& x.role@ == o.role@
                    &&& x.status@ == o.status@
                    &&& strings_view(x.capabilities) == strings_view(o.capabilities)
                    &&& x.observed_at@ == at@
                },
        decreases input.verses@.len() - i,
    {
        let o = &input.verses[i];
        verses.push(
            OdinVerseRecord {
                verse_id: copy_string(&o.verse_id),
                name: copy_string(&o.name),
                role: copy_string(&o.role),
                status: copy_string(&o.status),
                capabilities: copy_strings(&o.capabilities),
                observed_at: copy_string(at),
            },
        );
        i = i + 1;
    }
    let mut services: Vec<OdinServiceRecord> = Vec::new();
    let mut i: usize = 0;
    while i < input.services.len()
        invariant
            i <= input.services@.len(),
            services@.len() == i,
            forall|j: int|
                0 <= j < i ==> {
                    let (x, o) = (#[trigger] services@[j], input.services@[j]);
                    &&& x.service_id@ == o.service_id@
                    &&& x.verse_id@ == o.verse_id@
                    &&& x.name@ == o.name@
                    &&& x.state@ == o.state@
                    &&& x.detail@ == o.detail@
                    &&& x.authority@ == o.authority@
                    &&& x.observed_at@ == at@
                },
        decreases input.services@.len() - i,
    {
        let o = &input.services[i];
        services.push(
            OdinServiceRecord {
                service_id: copy_string(&o.service_id),
                verse_id: copy_string(&o.verse_id),
                name: copy_string(&o.name),
                state: copy_string(&o.state),
                detail: copy_string(&o.detail),
                authority: copy_string(&o.authority),
                observed_at: copy_string(at),
            },
        );
        i = i + 1;
    }
    let mut interfaces: Vec<OdinInterfaceRecord> = Vec::new();
    let mut i: usize = 0;
    while i < input.interfaces.len()
        invariant
            i <= input.interfaces@.len(),
            interfaces@.len() == i,
            forall|j: int|
                0 <= j < i ==> {
                    let (x, o) = (#[trigger] interfaces@[j], input.interfaces@[j]);
                    &&& x.provider_id@ == o.provider_id@
                    &&& x.title@ == o.title@
                    &&& x.state@ == o.state@
                    &&& x.source@ == o.source@
                    &&& opt_view(x.version) == opt_view(o.version)
                    &&& opt_view(x.updated_at) == opt_view(o.updated_at)
                    &&& x.observed_at@ == at@
                },
        decreases input.interfaces@.len() - i,
    {
        let o = &input.interfaces[i];
        interfaces.push(
            OdinInterfaceRecord {
                provider_id: copy_string(&o.provider_id),
                title: copy_string(&o.title),
                state: copy_string(&o.state),
                source: copy_string(&o.source),
                version: copy_opt_string(&o.version),
                updated_at: copy_opt_string(&o.updated_at),
                observed_at: copy_string(at),
            },
        );
        i = i + 1;
    }
    let mut observation_streams: Vec<OdinObservationStreamRecord> = Vec::new();
    let mut i: usize = 0;
    while i < input.observation_streams.len()
        invariant
            i <= input.observation_streams@.len(),
            observation_streams@.len() == i,
            forall|j: int|
                0 <= j < i ==> {
                    let (x, o) = (#[trigger] observation_streams@[j], input.observation_streams@[j]);
                    &&& x.stream_key@ == o.device_id@ + ":"@ + o.stream_id@ + ":"@ + o.kind@
                    &&& x.device_id@ == o.device_id@
                    &&& x.stream_id@ == o.stream_id@
                    &&& x.kind@ == o.kind@
                    &&& x.state@ == o.state@
                    &&& x.detail@ == o.detail@
                    &&& x.owner@ == o.owner@
                    &&& x.observed_at@ == at@
                },
        decreases input.observation_streams@.len() - i,
    {
        let o = &input.observation_streams[i];
        let mut key = copy_string(&o.device_id);
        push_str(&mut key, ":");
        push_str(&mut key, o.stream_id.as_str());
        push_str(&mut key, ":");
        push_str(&mut key, o.kind.as_str());
        observation_streams.push(
            OdinObservationStreamRecord {
                stream_key: key,
                device_id: copy_string(&o.device_id),
                stream_id: copy_string(&o.stream_id),
                kind: copy_string(&o.kind),
                state: copy_string(&o.state),
                detail: copy_string(&o.detail),
                owner: copy_string(&o.owner),
                observed_at: copy_string(at),
            },
        );
        i = i + 1;
    }
    let mut translation_routes: Vec<OdinTranslationRouteRecord> = Vec::new();
    let mut i: usize = 0;
    while i < input.translation_routes.len()
        invariant
            i <= input.translation_routes@.len(),
            translation_routes@.len() == i,
            forall|j: int|
                0 <= j < i ==> {
                    let (x, o) = (#[trigger] translation_routes@[j], input.translation_routes@[j]);
                    &&& x.route_id@ == o.source_schema@ + "=>"@ + o.target_schema@
                    &&& x.source_schema@ == o.source_schema@
                    &&& x.target_schema@ == o.target_schema@
                    &&& x.translation_kind@ == o.translation_kind@
                    &&& x.owner@ == o.owner@
                    &&& x.version@ == o.version@
                    &&& x.notes@ == o.notes@
                },
        decreases input.translation_routes@.len() - i,
    {
        let o = &input.translation_routes[i];
        let mut route_id = copy_string(&o.source_schema);
        push_str(&mut route_id, "=>");
        push_str(&mut route_id, o.target_schema.as_str());
        translation_routes.push(
            OdinTranslationRouteRecord {
                route_id,
                source_schema: copy_string(&o.source_schema),
                target_schema: copy_string(&o.target_schema),
                translation_kind: copy_string(&o.translation_kind),
                owner: copy_string(&o.owner),
                version: copy_string(&o.version),
                notes: copy_string(&o.notes),
            },
        );
        i = i + 1;
    }
    let mut gjallar_affordances: Vec<GjallarAffordanceRecord> = Vec::new();
    let mut i: usize = 0;
    while i < input.gjallar_affordances.len()
        invariant
            i <= input.gjallar_affordances@.len(),
            gjallar_affordances@.len() == i,
            forall|j: int|
                0 <= j < i ==> {
                    let (x, o) = (#[trigger] gjallar_affordances@[j], input.gjallar_affordances@[j]);
                    &&& x.affordance_id@ == "gjallar:"@ + o.source_record@ + ":"@ + decimal(j as nat)
                    &&& x.source_record@ == o.source_record@
                    &&& opt_view(x.verse_id) == opt_view(o.verse_id)
                    &&& x.surface_kind@ == o.surface_kind@
                    &&& x.action@ == o.action@
                    &&& x.authority@ == o.authority@
                    &&& x.status@ == o.status@
                    &&& x.provenance@ == o.provenance@
                    &&& x.observed_at@ == at@
                },
        decreases input.gjallar_affordances@.len() - i,
    {
        let o = &input.gjallar_affordances[i];
        let mut id = "gjallar:".to_string();
        push_str(&mut id, o.source_record.as_str());
        push_str(&mut id, ":");
        push_decimal(&mut id, i as u64);
        gjallar_affordances.push(
            GjallarAffordanceRecord {
                affordance_id: id,
                source_record: copy_string(&o.source_record),
                verse_id: copy_opt_string(&o.verse_id),
                surface_kind: copy_string(&o.surface_kind),
                action: copy_string(&o.action),
                authority: copy_string(&o.authority),
                status: copy_string(&o.status),
                provenance: copy_string(&o.provenance),
                observed_at: copy_string(at),
            },
        );
        i = i + 1;
    }
    let snapshot = OdinSnapshotRecord {
        snapshot_id: "latest".to_string(),
        observed_at: copy_string(at),
        verse_count: verses.len() as u32,
        service_count: services.len() as u32,
        interface_count: interfaces.len() as u32,
        observation_stream_count: observation_streams.len() as u32,
        source: copy_string(&input.source),
    };
    OdinRecords {
        snapshot: Some(snapshot),
        verses,
        services,
        interfaces,
        observation_streams,
        translation_routes,
        gjallar_affordances,
    }
}

} // verus!
