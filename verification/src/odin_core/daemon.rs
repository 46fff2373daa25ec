//! Decisions of the Odin daemon that stand apart from its I/O: which
//! warming proofs it still honours, how a provider schema id names a
//! document type, which provider documents and snapshot queries it admits,
//! and whether its own Expected projection matches what it was built for.
use vstd::prelude::*;
use std::collections::VecDeque;
use crate::text::{
    all_digits, chars_lt, chars_of, compare_chars, is_digit, lemma_chars_lt_asymmetric,
    lemma_chars_lt_irreflexive, lemma_chars_lt_total, lemma_chars_lt_transitive, occurs_at,
    occurs_at_chars, str_eq, string_of, trim, trim_bounds, TextOrder,
};

verus! {

broadcast use vstd::std_specs::vecdeque::group_vec_dequeue_axioms;

/// How long a warming proof stays usable, in milliseconds.
pub const WARMING_PROOF_LIFETIME_MILLIS: u64 = 60_000;

/// How many warming proofs are remembered at most.
pub const MAX_RECENT_WARMING_PROOFS: usize = 64;

/// `a - b`, or zero when `b` is larger (`u64::saturating_sub`).
pub open spec fn saturating_gap(a: u64, b: u64) -> int {
    if a >= b {
        a - b
    } else {
        0
    }
}

/// A proof issued at `issued` is too old at `now`.
pub open spec fn proof_expired(issued: u64, now: u64) -> bool {
    saturating_gap(now, issued) > WARMING_PROOF_LIFETIME_MILLIS
}

/// The proofs from the first one that has not expired on; the list is
/// oldest first.
pub open spec fn drop_expired_front(s: Seq<(String, u64)>, now: u64) -> Seq<(String, u64)>
    decreases s.len(),
{
    if s.len() > 0 && proof_expired(s[0].1, now) {
        drop_expired_front(s.drop_first(), now)
    } else {
        s
    }
}

/// The remembered proofs after a new one: expired ones dropped from the
/// front, the new one appended, and only the newest 64 kept.
pub open spec fn remembered(s: Seq<(String, u64)>, sha256: String, now: u64) -> Seq<(String, u64)> {
    let t = drop_expired_front(s, now).push((sha256, now));
    if t.len() > MAX_RECENT_WARMING_PROOFS {
        t.subrange(t.len() - MAX_RECENT_WARMING_PROOFS, t.len() as int)
    } else {
        t
    }
}

/// Remembers a warming proof issued at `now`.
pub fn remember_recent_warming_proof(
    recent_warming: &mut VecDeque<(String, u64)>,
    sha256: String,
    now: u64,
)
    ensures
        final(recent_warming)@ == remembered(old(recent_warming)@, sha256, now),
{
    let ghost s0 = recent_warming@;
    loop
        invariant
            drop_expired_front(s0, now) == drop_expired_front(recent_warming@, now),
        ensures
            drop_expired_front(s0, now) == recent_warming@,
        decreases recent_warming@.len(),
    {
        if recent_warming.len() == 0 {
            break;
        }
        let issued = recent_warming[0].1;
        let gap = if now >= issued {
            now - issued
        } else {
            0
        };
        if gap <= WARMING_PROOF_LIFETIME_MILLIS {
            break;
        }
        let ghost before = recent_warming@;
        recent_warming.pop_front();
        assert(recent_warming@ =~= before.drop_first());
    }
    recent_warming.push_back((sha256, now));
    let ghost t = recent_warming@;
    while recent_warming.len() > MAX_RECENT_WARMING_PROOFS
        invariant
            t.len() >= recent_warming@.len(),
            recent_warming@ == t.subrange(t.len() - recent_warming@.len(), t.len() as int),
            t.len() > MAX_RECENT_WARMING_PROOFS ==> recent_warming@.len() >= MAX_RECENT_WARMING_PROOFS,
            t.len() <= MAX_RECENT_WARMING_PROOFS ==> recent_warming@ == t,
        decreases recent_warming@.len(),
    {
        let ghost before = recent_warming@;
        recent_warming.pop_front();
        assert(recent_warming@ =~= t.subrange(t.len() - recent_warming@.len(), t.len() as int));
    }
    assert(t.len() <= MAX_RECENT_WARMING_PROOFS ==> recent_warming@ == t);
}

/// At most 64 proofs are ever remembered, and a proof just remembered is
/// honoured at the moment it was issued.
pub proof fn law_remembered_proof_is_recent(s: Seq<(String, u64)>, sha256: String, now: u64)
    ensures
        remembered(s, sha256, now).len() <= MAX_RECENT_WARMING_PROOFS,
        ({
            let r = remembered(s, sha256, now);
            &&& r.len() > 0
            &&& r[r.len() - 1].0@ == sha256@
            &&& !proof_expired(r[r.len() - 1].1, now)
        }),
{
    let t = drop_expired_front(s, now).push((sha256, now));
    if t.len() > MAX_RECENT_WARMING_PROOFS {
        let r = t.subrange(t.len() - MAX_RECENT_WARMING_PROOFS, t.len() as int);
        assert(r[r.len() - 1] == t[t.len() - 1]);
    }
}

/// Whether `expected_sha256` is among the remembered proofs and has not
/// expired at `now`.
pub fn recent_warming_proof(recent_warming: &VecDeque<(String, u64)>, expected_sha256: &str, now: u64) -> (r:
    bool)
    ensures
        r == exists|i: int|
            0 <= i < recent_warming@.len() && (#[trigger] recent_warming@[i]).0@ == expected_sha256@
                && !proof_expired(recent_warming@[i].1, now),
{
    let mut i: usize = 0;
    while i < recent_warming.len()
        invariant
            i <= recent_warming@.len(),
            forall|k: int|
                0 <= k < i ==> !((#[trigger] recent_warming@[k]).0@ == expected_sha256@
                    && !proof_expired(recent_warming@[k].1, now)),
        decreases recent_warming@.len() - i,
    {
        let entry = &recent_warming[i];
        let gap = if now >= entry.1 {
            now - entry.1
        } else {
            0
        };
        if crate::text::str_eq(entry.0.as_str(), expected_sha256) && gap
            <= WARMING_PROOF_LIFETIME_MILLIS {
            return true;
        }
        i = i + 1;
    }
    false
}


/// Why a provider schema id names no document type.
#[derive(Clone, Copy, Debug, PartialEq, Eq, Structural)]
pub enum SchemaIdFault {
    EmptyOrPadded,
    NoVersionSuffix,
    InvalidVersionSuffix,
}

impl SchemaIdFault {
    /// The text this fault is reported with.
    pub fn message(&self) -> (r: &'static str)
        ensures
            *self == SchemaIdFault::EmptyOrPadded ==> r@ == "provider schema id is empty or padded"@,
            *self == SchemaIdFault::NoVersionSuffix ==> r@
                == "provider schema id has no explicit version suffix"@,
            *self == SchemaIdFault::InvalidVersionSuffix ==> r@
                == "provider schema id has an invalid version suffix"@,
    {
        match self {
            SchemaIdFault::EmptyOrPadded => "provider schema id is empty or padded",
            SchemaIdFault::NoVersionSuffix => "provider schema id has no explicit version suffix",
            SchemaIdFault::InvalidVersionSuffix => "provider schema id has an invalid version suffix",
        }
    }
}

/// The last position at or before `i` where `p` occurs in `s`.
pub open spec fn last_occurrence(s: Seq<char>, p: Seq<char>, i: int) -> Option<int>
    decreases i + 1,
{
    if i < 0 {
        None
    } else if occurs_at(s, p, i) {
        Some(i)
    } else {
        last_occurrence(s, p, i - 1)
    }
}

/// The document type a schema id names: the id must be non-empty and
/// unpadded, and split at its last `.v` into a non-empty prefix (the type)
/// and a non-empty run of ASCII digits.
pub open spec fn schema_document_type(s: Seq<char>) -> Result<Seq<char>, SchemaIdFault> {
    if s.len() == 0 || trim(s) != s {
        Err(SchemaIdFault::EmptyOrPadded)
    } else {
        match last_occurrence(s, ".v"@, s.len() - ".v"@.len()) {
            None => Err(SchemaIdFault::NoVersionSuffix),
            Some(i) => {
                let prefix = s.subrange(0, i);
                let version = s.subrange(i + ".v"@.len(), s.len() as int);
                if prefix.len() > 0 && version.len() > 0 && all_digits(version) {
                    Ok(prefix)
                } else {
                    Err(SchemaIdFault::InvalidVersionSuffix)
                }
            },
        }
    }
}

proof fn lemma_last_occurrence_bounds(s: Seq<char>, p: Seq<char>, i: int)
    ensures
        last_occurrence(s, p, i) matches Some(k) ==> 0 <= k <= i && occurs_at(s, p, k),
    decreases i + 1,
{
    if i >= 0 && !occurs_at(s, p, i) {
        lemma_last_occurrence_bounds(s, p, i - 1);
    }
}

/// The document type named by a provider schema id.
pub fn document_type_for_schema(schema_id: &str) -> (r: Result<String, SchemaIdFault>)
    ensures
        match schema_document_type(schema_id@) {
            Ok(t) => r matches Ok(x) && x@ == t,
            Err(e) => r == Err::<String, SchemaIdFault>(e),
        },
{
    let v = chars_of(schema_id);
    let n = v.len();
    if n == 0 {
        return Err(SchemaIdFault::EmptyOrPadded);
    }
    let (a, b) = trim_bounds(v.as_slice());
    if a != 0 || b != n {
        assert(trim(v@).len() != v@.len());
        return Err(SchemaIdFault::EmptyOrPadded);
    }
    assert(v@.subrange(0, n as int) =~= v@);
    let pat = chars_of(".v");
    let m = pat.len();
    if m > n {
        assert(last_occurrence(v@, pat@, n - m) is None);
        return Err(SchemaIdFault::NoVersionSuffix);
    }
    let mut i: usize = n - m;
    let found: bool;
    loop
        invariant
            i + m <= n,
            n == v@.len(),
            m == pat@.len(),
            pat@ == ".v"@,
            last_occurrence(v@, pat@, n - m) == last_occurrence(v@, pat@, i as int),
        ensures
            found ==> last_occurrence(v@, pat@, n - m) == Some(i as int),
            !found ==> last_occurrence(v@, pat@, n - m) is None,
        decreases i,
    {
        if occurs_at_chars(v.as_slice(), pat.as_slice(), i) {
            found = true;
            break;
        }
        if i == 0 {
            assert(last_occurrence(v@, pat@, -1) is None);
            found = false;
            break;
        }
        i = i - 1;
    }
    if !found {
        return Err(SchemaIdFault::NoVersionSuffix);
    }
    let prefix = &v.as_slice()[0..i];
    let start = i + m;
    let mut ok = i > 0 && start < n;
    let mut j = start;
    while ok && j < n
        invariant
            start <= j <= n,
            n == v@.len(),
            ok ==> forall|k: int| start <= k < j ==> is_digit(#[trigger] v@[k]),
            ok ==> i > 0 && start < n,
            !ok ==> !(i > 0 && start < n && all_digits(v@.subrange(start as int, n as int))),
        decreases n - j,
    {
        let c = v[j];
        if !('0' <= c && c <= '9') {
            ok = false;
            proof {
                if i > 0 && start < n {
                    assert(v@.subrange(start as int, n as int)[j - start] == c);
                }
            }
        }
        j = j + 1;
    }
    proof {
        if ok {
            assert forall|k: int| 0 <= k < n - start implies is_digit(
                #[trigger] v@.subrange(start as int, n as int)[k],
            ) by {
                assert(v@.subrange(start as int, n as int)[k] == v@[start + k]);
            }
        }
    }
    if !ok {
        return Err(SchemaIdFault::InvalidVersionSuffix);
    }
    assert(prefix@ == v@.subrange(0, i as int));
    assert(v@ == schema_id@);
    assert(last_occurrence(v@, ".v"@, n - m) == Some(i as int));
    assert(i > 0 && start < n);
    assert(all_digits(v@.subrange(start as int, n as int)));
    assert(schema_document_type(schema_id@) == Ok::<Seq<char>, SchemaIdFault>(v@.subrange(0, i as int)));
    Ok(string_of(prefix))
}

/// The runtime target this daemon is.
pub const TARGET: &'static str = "odin";

/// Why a snapshot query's filters are refused.
#[derive(Clone, Copy, Debug, PartialEq, Eq, Structural)]
pub enum SnapshotFilterFault {
    MessageIdEmptyOrPadded,
    SchemaFilterEmpty,
    SchemaFilterInvalid,
    RecordKeyFilterEmpty,
    RecordKeyFilterInvalid,
}

pub open spec fn texts(v: Seq<String>) -> Seq<Seq<char>> {
    v.map_values(|s: String| s@)
}

/// A filter's values are distinct, non-empty and unpadded.
pub open spec fn filter_values_valid(v: Seq<Seq<char>>) -> bool {
    &&& forall|i: int, j: int| 0 <= i < j < v.len() ==> #[trigger] v[i] != #[trigger] v[j]
    &&& forall|i: int| 0 <= i < v.len() ==> (#[trigger] v[i]).len() > 0 && trim(v[i]) == v[i]
}

/// The fault of one filter, if any: present but empty, or with invalid
/// values.
pub open spec fn filter_fault(
    f: Option<Vec<String>>,
    empty: SnapshotFilterFault,
    invalid: SnapshotFilterFault,
) -> Option<SnapshotFilterFault> {
    match f {
        None => None,
        Some(v) => if v@.len() == 0 {
            Some(empty)
        } else if !filter_values_valid(texts(v@)) {
            Some(invalid)
        } else {
            None
        },
    }
}

/// Why a snapshot query is refused: its message id first, then the schema
/// filter, then the record-key filter.
pub open spec fn snapshot_filter_fault(
    message_id: Seq<char>,
    schema_ids: Option<Vec<String>>,
    record_keys: Option<Vec<String>>,
) -> Option<SnapshotFilterFault> {
    if message_id.len() == 0 || trim(message_id) != message_id {
        Some(SnapshotFilterFault::MessageIdEmptyOrPadded)
    } else {
        match filter_fault(
            schema_ids,
            SnapshotFilterFault::SchemaFilterEmpty,
            SnapshotFilterFault::SchemaFilterInvalid,
        ) {
            Some(e) => Some(e),
            None => filter_fault(
                record_keys,
                SnapshotFilterFault::RecordKeyFilterEmpty,
                SnapshotFilterFault::RecordKeyFilterInvalid,
            ),
        }
    }
}

fn nonempty_unpadded(s: &str) -> (r: bool)
    ensures
        r == (s@.len() > 0 && trim(s@) == s@),
{
    let v = chars_of(s);
    if v.len() == 0 {
        return false;
    }
    let (a, b) = trim_bounds(v.as_slice());
    assert(v@.subrange(0, v@.len() as int) =~= v@);
    if a == 0 && b == v.len() {
        true
    } else {
        assert(trim(v@).len() != v@.len());
        false
    }
}

fn filter_valid(values: &Vec<String>) -> (r: bool)
    ensures
        r == filter_values_valid(texts(values@)),
{
    let ghost v = texts(values@);
    let mut i: usize = 0;
    while i < values.len()
        invariant
            i <= values@.len(),
            v == texts(values@),
            forall|a: int, b: int| 0 <= a < b < i ==> #[trigger] v[a] != #[trigger] v[b],
            forall|a: int| 0 <= a < i ==> (#[trigger] v[a]).len() > 0 && trim(v[a]) == v[a],
        decreases values@.len() - i,
    {
        assert(v[i as int] == values@[i as int]@);
        if !nonempty_unpadded(values[i].as_str()) {
            return false;
        }
        let mut j: usize = 0;
        while j < i
            invariant
                j <= i < values@.len(),
                v == texts(values@),
                forall|a: int| 0 <= a < j ==> v[a] != v[i as int],
            decreases i - j,
        {
            assert(v[j as int] == values@[j as int]@);
            if str_eq(values[j].as_str(), values[i].as_str()) {
                assert(v[j as int] == v[i as int]);
                return false;
            }
            j = j + 1;
        }
        i = i + 1;
    }
    true
}

/// Checks a snapshot query's message id and filters.
pub fn validate_snapshot_filters(
    message_id: &str,
    schema_ids: &Option<Vec<String>>,
    record_keys: &Option<Vec<String>>,
) -> (r: Result<(), SnapshotFilterFault>)
    ensures
        match snapshot_filter_fault(message_id@, *schema_ids, *record_keys) {
            Some(e) => r == Err::<(), SnapshotFilterFault>(e),
            None => r is Ok,
        },
{
    if !nonempty_unpadded(message_id) {
        return Err(SnapshotFilterFault::MessageIdEmptyOrPadded);
    }
    if let Some(values) = schema_ids {
        if values.len() == 0 {
            return Err(SnapshotFilterFault::SchemaFilterEmpty);
        }
        if !filter_valid(values) {
            return Err(SnapshotFilterFault::SchemaFilterInvalid);
        }
    }
    if let Some(values) = record_keys {
        if values.len() == 0 {
            return Err(SnapshotFilterFault::RecordKeyFilterEmpty);
        }
        if !filter_valid(values) {
            return Err(SnapshotFilterFault::RecordKeyFilterInvalid);
        }
    }
    Ok(())
}

/// A filter lets a value through when it is absent or lists the value.
pub open spec fn filter_allows(f: Option<Vec<String>>, value: Seq<char>) -> bool {
    match f {
        None => true,
        Some(v) => texts(v@).contains(value),
    }
}

fn filter_contains(values: &Vec<String>, value: &str) -> (r: bool)
    ensures
        r == texts(values@).contains(value@),
{
    let mut i: usize = 0;
    while i < values.len()
        invariant
            i <= values@.len(),
            forall|a: int| 0 <= a < i ==> texts(values@)[a] != value@,
        decreases values@.len() - i,
    {
        if str_eq(values[i].as_str(), value) {
            assert(texts(values@)[i as int] == value@);
            return true;
        }
        i = i + 1;
    }
    false
}

/// Whether a snapshot query's filters let a document through.
pub fn query_allows(
    schema_ids: &Option<Vec<String>>,
    record_keys: &Option<Vec<String>>,
    schema_id: &str,
    record_key: &str,
) -> (r: bool)
    ensures
        r == (filter_allows(*schema_ids, schema_id@) && filter_allows(*record_keys, record_key@)),
{
    let schema_ok = match schema_ids {
        None => true,
        Some(v) => filter_contains(v, schema_id),
    };
    let key_ok = match record_keys {
        None => true,
        Some(v) => filter_contains(v, record_key),
    };
    schema_ok && key_ok
}

/// A filter that lists exactly one value.
pub open spec fn filter_is(f: Option<Vec<String>>, value: Seq<char>) -> bool {
    match f {
        Some(v) => texts(v@) == seq![value],
        None => false,
    }
}

/// Whether a query asks for exactly this daemon's own presence: the one
/// presence schema and the one key `odin`.
pub fn exact_self_presence_query(
    schema_ids: &Option<Vec<String>>,
    record_keys: &Option<Vec<String>>,
    presence_schema: &str,
) -> (r: bool)
    ensures
        r == (filter_is(*schema_ids, presence_schema@) && filter_is(*record_keys, "odin"@)),
{
    let schema_ok = match schema_ids {
        Some(s) => s.len() == 1 && str_eq(s[0].as_str(), presence_schema),
        None => false,
    };
    let key_ok = match record_keys {
        Some(k) => k.len() == 1 && str_eq(k[0].as_str(), TARGET),
        None => false,
    };
    proof {
        if let Some(s) = schema_ids {
            if s@.len() == 1 && s@[0]@ == presence_schema@ {
                assert(texts(s@) =~= seq![presence_schema@]);
            }
            if texts(s@) == seq![presence_schema@] {
                assert(texts(s@).len() == 1);
                assert(s@.len() == 1);
                assert(texts(s@)[0] == s@[0]@);
            }
        }
        if let Some(k) = record_keys {
            if k@.len() == 1 && k@[0]@ == "odin"@ {
                assert(texts(k@) =~= seq!["odin"@]);
            }
            if texts(k@) == seq!["odin"@] {
                assert(texts(k@).len() == 1);
                assert(k@.len() == 1);
                assert(texts(k@)[0] == k@[0]@);
            }
        }
    }
    schema_ok && key_ok
}

/// The health contract this daemon answers to.
pub const HEALTH_CONTRACT: &'static str = "odin.runtime-health.v1";

/// The one capability this daemon offers.
pub const RENDEZVOUS_CAPABILITY: &'static str = "odin.verse-rendezvous";

pub const RENDEZVOUS_SCHEMA: &'static str = "odin.verse-topology.v1";

pub const RENDEZVOUS_COMPATIBILITY: &'static str = "v1";

/// The state generation this daemon keeps.
pub const STATE_SCHEMA_GENERATION: &'static str = "odin-v2";

/// The digest of the state contract this daemon keeps.
pub const STATE_CONTRACT_SHA256: &'static str =
    "sha256-4f2f2dcd931d16f6b02bf295f41227b867aa982765661d55fa9f29fb2db7e449";

/// The route an Expected projection admits.
pub struct ExpectedRoute {
    pub transport: String,
    pub candidate_endpoint: String,
}

/// What the daemon checks of its own Expected projection.
pub struct ExpectedContract {
    pub target: String,
    pub health_contract: String,
    pub state_schema_generation: Option<String>,
    pub state_contract_sha256: Option<String>,
    pub write_lease_required: bool,
    pub route: Option<ExpectedRoute>,
    pub capabilities: Vec<crate::odin_core::authority::CapabilityRequirement>,
    pub dependency_count: usize,
}

/// How an Expected projection differs from the daemon's compiled contract.
#[derive(Clone, Copy, Debug, PartialEq, Eq, Structural)]
pub enum ContractFault {
    /// Target, health contract, state generation or digest, or the write
    /// lease requirement differ.
    RuntimeContractDiffers,
    /// No route is admitted.
    NoRoute,
    /// The admitted route is not RUDP to the candidate bind.
    BindDiffers,
    /// The rendezvous capability is missing.
    NoRendezvousCapability,
    /// The rendezvous capability has no capacity, or others come with it.
    CapabilitySetDiffers,
    /// The daemon is expected to depend on a managed daemon.
    HasDependencies,
}

pub open spec fn opt_text(o: Option<String>) -> Option<Seq<char>> {
    match o {
        Some(s) => Some(s@),
        None => None,
    }
}

/// The minimum capacity of the first rendezvous capability, if any.
pub open spec fn rendezvous_capacity(
    caps: Seq<crate::odin_core::authority::CapabilityRequirement>,
) -> Option<u64>
    decreases caps.len(),
{
    if caps.len() == 0 {
        None
    } else if caps[0].capability@ == RENDEZVOUS_CAPABILITY@ && caps[0].schema@ == RENDEZVOUS_SCHEMA@
        && caps[0].compatibility@ == RENDEZVOUS_COMPATIBILITY@ {
        Some(caps[0].minimum_capacity)
    } else {
        rendezvous_capacity(caps.drop_first())
    }
}

/// The checks in order: the runtime contract, the route to `rudp://` and
/// the candidate bind, the rendezvous capability with capacity and alone,
/// and no dependencies.
pub open spec fn contract_outcome(e: ExpectedContract, bind: Seq<char>) -> Result<(), ContractFault> {
    if !(e.target@ == TARGET@ && e.health_contract@ == HEALTH_CONTRACT@ && opt_text(
        e.state_schema_generation,
    ) == Some(STATE_SCHEMA_GENERATION@) && opt_text(e.state_contract_sha256) == Some(
        STATE_CONTRACT_SHA256@,
    ) && e.write_lease_required) {
        Err(ContractFault::RuntimeContractDiffers)
    } else {
        match e.route {
            None => Err(ContractFault::NoRoute),
            Some(r) => if !(r.transport@ == "rudp"@ && r.candidate_endpoint@ == "rudp://"@ + bind) {
                Err(ContractFault::BindDiffers)
            } else {
                match rendezvous_capacity(e.capabilities@) {
                    None => Err(ContractFault::NoRendezvousCapability),
                    Some(c) => if !(c > 0 && e.capabilities@.len() == 1) {
                        Err(ContractFault::CapabilitySetDiffers)
                    } else if e.dependency_count != 0 {
                        Err(ContractFault::HasDependencies)
                    } else {
                        Ok(())
                    },
                }
            },
        }
    }
}

fn opt_text_is(o: &Option<String>, t: &str) -> (r: bool)
    ensures
        r == (opt_text(*o) == Some(t@)),
{
    match o {
        Some(s) => str_eq(s.as_str(), t),
        None => false,
    }
}

/// Checks the daemon's Expected projection against its compiled contract
/// and its candidate bind (the socket address as text).
#[verifier::loop_isolation(false)]
pub fn require_expected_contract(expected: &ExpectedContract, bind: &str) -> (r: Result<
    (),
    ContractFault,
>)
    ensures
        r == contract_outcome(*expected, bind@),
{
    if !(str_eq(expected.target.as_str(), TARGET) && str_eq(
        expected.health_contract.as_str(),
        HEALTH_CONTRACT,
    ) && opt_text_is(&expected.state_schema_generation, STATE_SCHEMA_GENERATION) && opt_text_is(
        &expected.state_contract_sha256,
        STATE_CONTRACT_SHA256,
    ) && expected.write_lease_required) {
        return Err(ContractFault::RuntimeContractDiffers);
    }
    let route = match &expected.route {
        None => { return Err(ContractFault::NoRoute); },
        Some(r) => r,
    };
    let mut endpoint = "rudp://".to_string();
    crate::text::push_str(&mut endpoint, bind);
    proof {
        reveal_strlit("rudp://");
    }
    if !(str_eq(route.transport.as_str(), "rudp") && str_eq(
        route.candidate_endpoint.as_str(),
        endpoint.as_str(),
    )) {
        return Err(ContractFault::BindDiffers);
    }
    let caps = &expected.capabilities;
    let mut i: usize = 0;
    assert(caps@.subrange(0, caps@.len() as int) =~= caps@);
    while i < caps.len()
        invariant
            i <= caps@.len(),
            rendezvous_capacity(caps@) == rendezvous_capacity(caps@.subrange(i as int, caps@.len() as int)),
        decreases caps@.len() - i,
    {
        let ghost rest = caps@.subrange(i as int, caps@.len() as int);
        assert(rest[0] == caps@[i as int]);
        let c = &caps[i];
        if str_eq(c.capability.as_str(), RENDEZVOUS_CAPABILITY) && str_eq(
            c.schema.as_str(),
            RENDEZVOUS_SCHEMA,
        ) && str_eq(c.compatibility.as_str(), RENDEZVOUS_COMPATIBILITY) {
            if !(c.minimum_capacity > 0 && caps.len() == 1) {
                return Err(ContractFault::CapabilitySetDiffers);
            }
            if expected.dependency_count != 0 {
                return Err(ContractFault::HasDependencies);
            }
            return Ok(());
        }
        assert(rest.drop_first() =~= caps@.subrange(i + 1, caps@.len() as int));
        i = i + 1;
    }
    Err(ContractFault::NoRendezvousCapability)
}

impl ContractFault {
    /// The text this fault is reported with.
    pub fn message(&self) -> (r: &'static str)
        ensures
            r@ == match *self {
                ContractFault::RuntimeContractDiffers =>
                    "Odin Expected projection differs from its compiled runtime/state contract"@,
                ContractFault::NoRoute => "Odin Expected projection has no admitted route"@,
                ContractFault::BindDiffers => "Odin candidate bind differs from Expected"@,
                ContractFault::NoRendezvousCapability =>
                    "Odin Expected projection omits its rendezvous capability"@,
                ContractFault::CapabilitySetDiffers =>
                    "Odin Expected capability set differs from its compiled contract"@,
                ContractFault::HasDependencies => "Odin bootstrap cannot depend on a managed daemon"@,
            },
    {
        match self {
            ContractFault::RuntimeContractDiffers =>
                "Odin Expected projection differs from its compiled runtime/state contract",
            ContractFault::NoRoute => "Odin Expected projection has no admitted route",
            ContractFault::BindDiffers => "Odin candidate bind differs from Expected",
            ContractFault::NoRendezvousCapability =>
                "Odin Expected projection omits its rendezvous capability",
            ContractFault::CapabilitySetDiffers =>
                "Odin Expected capability set differs from its compiled contract",
            ContractFault::HasDependencies => "Odin bootstrap cannot depend on a managed daemon",
        }
    }
}

/// A raw provider document as the daemon checks and stores it.
pub struct RawDocument {
    pub schema_id: String,
    pub record_key: String,
    pub stored_at: String,
    /// Whether the payload is declared as MessagePack.
    pub messagepack: bool,
    pub payload: Vec<u8>,
}

/// Why a raw provider document was refused.
#[derive(Clone, Copy, Debug, PartialEq, Eq, Structural)]
pub enum DocumentShapeFault {
    /// Not MessagePack, an empty or padded key, or an empty payload.
    KeyEncodingOrPayload,
    /// The schema id names no document type.
    Schema(SchemaIdFault),
    /// `stored_at` is not RFC 3339.
    StoredAt,
    /// Generic traffic may not write a document type that the authority owns.
    AuthorityOwned,
}

/// Whether chrono's RFC 3339 parser accepts `text`.
pub uninterp spec fn rfc3339_parses(text: Seq<char>) -> bool;

/// `DateTime::parse_from_rfc3339` (chrono) on `text`, reduced to whether it
/// succeeds; that answer is named `rfc3339_parses`.
#[verifier::external_body]
fn parses_as_rfc3339(text: &str) -> (r: bool)
    ensures
        r == rfc3339_parses(text@),
{
    chrono::DateTime::parse_from_rfc3339(text).is_ok()
}

/// The shape checks in order: encoding, key and payload; the schema id;
/// the storage time.
pub open spec fn shape_outcome(d: RawDocument) -> Result<(), DocumentShapeFault> {
    if !(d.messagepack && d.record_key@.len() > 0 && trim(d.record_key@) == d.record_key@
        && d.payload@.len() > 0) {
        Err(DocumentShapeFault::KeyEncodingOrPayload)
    } else {
        match schema_document_type(d.schema_id@) {
            Err(e) => Err(DocumentShapeFault::Schema(e)),
            Ok(_) => if rfc3339_parses(d.stored_at@) {
                Ok(())
            } else {
                Err(DocumentShapeFault::StoredAt)
            },
        }
    }
}

/// Checks the shape of a raw provider document.
pub fn validate_raw_document_shape(document: &RawDocument) -> (r: Result<(), DocumentShapeFault>)
    ensures
        r == shape_outcome(*document),
{
    let key = chars_of(document.record_key.as_str());
    let (a, b) = trim_bounds(key.as_slice());
    let trimmed = a == 0 && b == key.len();
    proof {
        if trimmed {
            assert(key@.subrange(0, key@.len() as int) =~= key@);
        } else {
            assert(trim(key@).len() != key@.len());
        }
    }
    if !(document.messagepack && key.len() > 0 && trimmed && document.payload.len() > 0) {
        return Err(DocumentShapeFault::KeyEncodingOrPayload);
    }
    match document_type_for_schema(document.schema_id.as_str()) {
        Err(e) => { return Err(DocumentShapeFault::Schema(e)); },
        Ok(_) => {},
    }
    if parses_as_rfc3339(document.stored_at.as_str()) {
        Ok(())
    } else {
        Err(DocumentShapeFault::StoredAt)
    }
}

/// The document types that only the topology authority and Idunn write.
pub open spec fn authority_owned(t: Seq<char>) -> bool {
    ||| t == "gamecult.runtime_presence_health"@
    ||| t == "odin.runtime_topology_correlation"@
    ||| t == "idunn.expected_incarnation"@
    ||| t == "idunn.runtime_activation"@
    ||| t == "idunn.process_write_lease"@
    ||| t == "gamecult.service_trust_anchor"@
}

/// The type a generic provider document is stored under, unless the
/// authority owns that type.
pub fn generic_document_type(schema_id: &str) -> (r: Result<String, DocumentShapeFault>)
    ensures
        match schema_document_type(schema_id@) {
            Err(e) => r == Err::<String, DocumentShapeFault>(DocumentShapeFault::Schema(e)),
            Ok(t) => if authority_owned(t) {
                r == Err::<String, DocumentShapeFault>(DocumentShapeFault::AuthorityOwned)
            } else {
                r matches Ok(x) && x@ == t
            },
        },
{
    let t = match document_type_for_schema(schema_id) {
        Err(e) => { return Err(DocumentShapeFault::Schema(e)); },
        Ok(t) => t,
    };
    let owned = str_eq(t.as_str(), "gamecult.runtime_presence_health") || str_eq(
        t.as_str(),
        "odin.runtime_topology_correlation",
    ) || str_eq(t.as_str(), "idunn.expected_incarnation") || str_eq(
        t.as_str(),
        "idunn.runtime_activation",
    ) || str_eq(t.as_str(), "idunn.process_write_lease") || str_eq(
        t.as_str(),
        "gamecult.service_trust_anchor",
    );
    if owned {
        Err(DocumentShapeFault::AuthorityOwned)
    } else {
        Ok(t)
    }
}

/// The state the daemon's own presence is published in.
#[derive(Clone, Copy, Debug, PartialEq, Eq, Structural)]
pub enum PresenceState {
    /// Holding its process-write lease.
    Active,
    /// Waiting for Idunn to grant the lease.
    Warming,
}

/// How a snapshot query is answered.
#[derive(Debug, PartialEq, Eq)]
pub enum SnapshotAnswer {
    /// With the daemon's own freshly signed presence, in a state and with a
    /// detail that names the query.
    SelfPresence { state: PresenceState, detail: String },
    /// With the stored catalog.
    Catalog,
}

/// Why a snapshot query is refused.
#[derive(Clone, Copy, Debug, PartialEq, Eq, Structural)]
pub enum SnapshotRefusal {
    /// The catalog stays closed until Idunn grants the process-write lease.
    CatalogUnavailable,
}

/// How a snapshot query with valid filters is answered: the exact
/// self-presence query (a route challenge) with the daemon's presence,
/// active as `route-observation:ID` or warming as `idunn-warming:ID`; any
/// other query with the catalog, once the daemon is activated.
pub fn snapshot_answer(activated: bool, exact_self_presence: bool, message_id: &str) -> (r: Result<
    SnapshotAnswer,
    SnapshotRefusal,
>)
    ensures
        exact_self_presence ==> (r matches Ok(SnapshotAnswer::SelfPresence { state, detail })
            && state == (if activated {
            PresenceState::Active
        } else {
            PresenceState::Warming
        }) && detail@ == (if activated {
            "route-observation:"@
        } else {
            "idunn-warming:"@
        }) + message_id@),
        !exact_self_presence && activated ==> r matches Ok(SnapshotAnswer::Catalog),
        !exact_self_presence && !activated ==> r == Err::<SnapshotAnswer, SnapshotRefusal>(
            SnapshotRefusal::CatalogUnavailable,
        ),
{
    if exact_self_presence {
        let (state, mut detail) = if activated {
            (PresenceState::Active, "route-observation:".to_string())
        } else {
            (PresenceState::Warming, "idunn-warming:".to_string())
        };
        crate::text::push_str(&mut detail, message_id);
        return Ok(SnapshotAnswer::SelfPresence { state, detail });
    }
    if activated {
        Ok(SnapshotAnswer::Catalog)
    } else {
        Err(SnapshotRefusal::CatalogUnavailable)
    }
}

/// Whether a presence state fits the daemon's authority: warming without a
/// process-write lease, active with one.
pub fn presence_state_fits_lease(state: &str, holds_lease: bool) -> (r: bool)
    ensures
        r == ((state@ == "warming"@ && !holds_lease) || (state@ == "active"@ && holds_lease)),
{
    (str_eq(state, "warming") && !holds_lease) || (str_eq(state, "active") && holds_lease)
}

/// A public document identity: its schema id and record key.
pub open spec fn identity_view(p: (String, String)) -> (Seq<char>, Seq<char>) {
    (p.0@, p.1@)
}

/// Identities in order: by schema id, then by record key.
pub open spec fn identity_lt(a: (Seq<char>, Seq<char>), b: (Seq<char>, Seq<char>)) -> bool {
    chars_lt(a.0, b.0) || (a.0 == b.0 && chars_lt(a.1, b.1))
}

proof fn lemma_identity_lt(a: (Seq<char>, Seq<char>), b: (Seq<char>, Seq<char>), c: (Seq<char>, Seq<char>))
    ensures
        !identity_lt(a, a),
        identity_lt(a, b) ==> !identity_lt(b, a),
        identity_lt(a, b) || a == b || identity_lt(b, a),
        identity_lt(a, b) && identity_lt(b, c) ==> identity_lt(a, c),
{
    lemma_chars_lt_irreflexive(a.0);
    lemma_chars_lt_irreflexive(a.1);
    lemma_chars_lt_asymmetric(a.0, b.0);
    lemma_chars_lt_asymmetric(a.1, b.1);
    lemma_chars_lt_total(a.0, b.0);
    lemma_chars_lt_total(a.1, b.1);
    if chars_lt(a.0, b.0) && chars_lt(b.0, c.0) {
        lemma_chars_lt_transitive(a.0, b.0, c.0);
    }
    if chars_lt(a.1, b.1) && chars_lt(b.1, c.1) {
        lemma_chars_lt_transitive(a.1, b.1, c.1);
    }
}

/// Entry `i` passes the query's schema and key filters.
pub open spec fn selected(
    schema_ids: Option<Vec<String>>,
    record_keys: Option<Vec<String>>,
    ids: Seq<(String, String)>,
    i: int,
) -> bool {
    0 <= i < ids.len() && filter_allows(schema_ids, ids[i].0@) && filter_allows(record_keys, ids[i].1@)
}

/// Two selected entries share one public identity.
pub open spec fn duplicate_selected(
    schema_ids: Option<Vec<String>>,
    record_keys: Option<Vec<String>>,
    ids: Seq<(String, String)>,
) -> bool {
    exists|i: int, j: int|
        i < j && selected(schema_ids, record_keys, ids, i) && selected(schema_ids, record_keys, ids, j)
            && #[trigger] identity_view(ids[i]) == #[trigger] identity_view(ids[j])
}

/// The catalog contains two documents with one public identity.
#[derive(Clone, Copy, Debug, PartialEq, Eq, Structural)]
pub struct DuplicateIdentity;

fn compare_identities(a: &(String, String), b: &(String, String)) -> (r: TextOrder)
    ensures
        (r == TextOrder::Less) == identity_lt(identity_view(*a), identity_view(*b)),
        (r == TextOrder::Equal) == (identity_view(*a) == identity_view(*b)),
        (r == TextOrder::Greater) == identity_lt(identity_view(*b), identity_view(*a)),
{
    proof {
        lemma_identity_lt(identity_view(*a), identity_view(*b), identity_view(*a));
        lemma_identity_lt(identity_view(*b), identity_view(*a), identity_view(*b));
    }
    let a0 = chars_of(a.0.as_str());
    let b0 = chars_of(b.0.as_str());
    let c = compare_chars(a0.as_slice(), b0.as_slice());
    if c != TextOrder::Equal {
        return c;
    }
    let a1 = chars_of(a.1.as_str());
    let b1 = chars_of(b.1.as_str());
    compare_chars(a1.as_slice(), b1.as_slice())
}

/// The documents a snapshot returns, given their public identities (schema
/// id, record key) in store order: the positions of those the query's
/// filters let through, in identity order; refused when two of them share
/// an identity.
pub fn snapshot_selection(
    schema_ids: &Option<Vec<String>>,
    record_keys: &Option<Vec<String>>,
    ids: &Vec<(String, String)>,
) -> (r: Result<Vec<usize>, DuplicateIdentity>)
    ensures
        r is Err <==> duplicate_selected(*schema_ids, *record_keys, ids@),
        r matches Ok(out) ==> {
            &&& forall|a: int, b: int|
                0 <= a < b < out@.len() ==> identity_lt(
                    identity_view(ids@[#[trigger] out@[a] as int]),
                    identity_view(ids@[#[trigger] out@[b] as int]),
                )
            &&& forall|m: int|
                0 <= m < out@.len() ==> selected(*schema_ids, *record_keys, ids@, #[trigger] out@[m] as int)
            &&& forall|k: int|
                selected(*schema_ids, *record_keys, ids@, k) ==> out@.contains(k as usize)
        },
{
    let mut out: Vec<usize> = Vec::new();
    let mut k: usize = 0;
    while k < ids.len()
        invariant
            k <= ids@.len(),
            forall|a: int, b: int|
                0 <= a < b < out@.len() ==> identity_lt(
                    identity_view(ids@[#[trigger] out@[a] as int]),
                    identity_view(ids@[#[trigger] out@[b] as int]),
                ),
            forall|m: int|
                0 <= m < out@.len() ==> (#[trigger] out@[m]) < k && selected(
                    *schema_ids,
                    *record_keys,
                    ids@,
                    out@[m] as int,
                ),
            forall|x: int|
                0 <= x < k && selected(*schema_ids, *record_keys, ids@, x) ==> out@.contains(
                    x as usize,
                ),
            !exists|i: int, j: int|
                i < j < k && selected(*schema_ids, *record_keys, ids@, i) && selected(
                    *schema_ids,
                    *record_keys,
                    ids@,
                    j,
                ) && #[trigger] identity_view(ids@[i]) == #[trigger] identity_view(ids@[j]),
        decreases ids@.len() - k,
    {
        let here = query_allows(schema_ids, record_keys, ids[k].0.as_str(), ids[k].1.as_str());
        let ghost before = out@;
        if here {
            let mut p: usize = 0;
            while p < out.len() && compare_identities(&ids[out[p]], &ids[k]) == TextOrder::Less
                invariant
                    out@ == before,
                    k < ids@.len(),
                    p <= out@.len(),
                    forall|m: int| 0 <= m < out@.len() ==> (#[trigger] out@[m]) < k,
                    forall|j: int|
                        0 <= j < p ==> identity_lt(
                            identity_view(ids@[#[trigger] out@[j] as int]),
                            identity_view(ids@[k as int]),
                        ),
                decreases out@.len() - p,
            {
                p = p + 1;
            }
            if p < out.len() && compare_identities(&ids[out[p]], &ids[k]) == TextOrder::Equal {
                proof {
                    let i = out@[p as int] as int;
                    assert(i < k && selected(*schema_ids, *record_keys, ids@, i));
                    assert(identity_view(ids@[i]) == identity_view(ids@[k as int]));
                }
                return Err(DuplicateIdentity);
            }
            let ghost kid = identity_view(ids@[k as int]);
            proof {
                assert forall|j: int| p <= j < before.len() implies identity_lt(
                    kid,
                    identity_view(ids@[#[trigger] before[j] as int]),
                ) by {
                    let at_p = identity_view(ids@[before[p as int] as int]);
                    lemma_identity_lt(at_p, kid, at_p);
                    if j > p {
                        lemma_identity_lt(kid, at_p, identity_view(ids@[before[j] as int]));
                    }
                }
                assert forall|i: int, j: int|
                    i < j < k + 1 && selected(*schema_ids, *record_keys, ids@, i) && selected(
                        *schema_ids,
                        *record_keys,
                        ids@,
                        j,
                    ) implies #[trigger] identity_view(ids@[i]) != #[trigger] identity_view(ids@[j]) by {
                    if j == k {
                        assert(before.contains(i as usize));
                        let q = choose|q: int| 0 <= q < before.len() && before[q] == i as usize;
                        if q < p {
                            lemma_identity_lt(identity_view(ids@[i]), kid, kid);
                        } else {
                            lemma_identity_lt(kid, identity_view(ids@[i]), kid);
                        }
                    }
                }
            }
            out.insert(p, k);
            proof {
                let after = out@;
                assert(after == before.insert(p as int, k));
                assert forall|a: int, b: int| 0 <= a < b < after.len() implies identity_lt(
                    identity_view(ids@[#[trigger] after[a] as int]),
                    identity_view(ids@[#[trigger] after[b] as int]),
                ) by {
                    if b < p {
                        assert(after[a] == before[a] && after[b] == before[b]);
                    } else if a < p && b == p {
                        assert(after[a] == before[a]);
                    } else if a < p {
                        assert(after[a] == before[a] && after[b] == before[b - 1]);
                        lemma_identity_lt(
                            identity_view(ids@[after[a] as int]),
                            kid,
                            identity_view(ids@[after[b] as int]),
                        );
                    } else if a == p {
                        assert(after[b] == before[b - 1]);
                    } else {
                        assert(after[a] == before[a - 1] && after[b] == before[b - 1]);
                    }
                }
                assert forall|x: int|
                    0 <= x < k + 1 && selected(*schema_ids, *record_keys, ids@, x) implies after.contains(
                    x as usize,
                ) by {
                    if x < k {
                        assert(before.contains(x as usize));
                        let q = choose|q: int| 0 <= q < before.len() && before[q] == x as usize;
                        if q < p {
                            assert(after[q] == before[q]);
                        } else {
                            assert(after[q + 1] == before[q]);
                        }
                    } else {
                        assert(after[p as int] == k);
                    }
                }
                assert forall|m: int| 0 <= m < after.len() implies (#[trigger] after[m]) < k + 1
                    && selected(*schema_ids, *record_keys, ids@, after[m] as int) by {
                    if m < p {
                        assert(after[m] == before[m]);
                    } else if m > p {
                        assert(after[m] == before[m - 1]);
                    }
                }
            }
        } else {
            proof {
                assert(!selected(*schema_ids, *record_keys, ids@, k as int));
            }
        }
        k = k + 1;
    }
    Ok(out)
}

} // verus!
