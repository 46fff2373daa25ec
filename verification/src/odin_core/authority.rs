//! Odin's runtime-topology authority, reduced to its decisions: which
//! disagreements a projection and a presence raise, which write lease is
//! observed, when a correlation is ready, and the keys it is stored under.
//! Signatures, canonical encodings and the store are supplied from outside
//! as plain facts.
use vstd::prelude::*;
use std::collections::BTreeMap;
use crate::documents::{copy_opt_string, copy_string, opt_view};
use crate::text::{
    chars_lt, chars_of, compare_chars, decimal, join3, lemma_chars_lt_asymmetric, lemma_chars_lt_total,
    lemma_chars_lt_transitive, push_decimal, push_str, str_eq, TextOrder,
};

verus! {

/// Freshness limits for presences and correlations, in milliseconds.
#[derive(Clone, Copy, Debug, PartialEq, Eq, Structural)]
pub struct AuthenticationPolicy {
    pub presence_maximum_age_millis: u64,
    pub presence_maximum_future_skew_millis: u64,
    pub correlation_maximum_age_millis: u64,
    pub correlation_maximum_future_skew_millis: u64,
}

impl Default for AuthenticationPolicy {
    fn default() -> (r: Self)
        ensures
            r == (AuthenticationPolicy {
                presence_maximum_age_millis: 30_000,
                presence_maximum_future_skew_millis: 5_000,
                correlation_maximum_age_millis: 30_000,
                correlation_maximum_future_skew_millis: 5_000,
            }),
    {
        AuthenticationPolicy {
            presence_maximum_age_millis: 30_000,
            presence_maximum_future_skew_millis: 5_000,
            correlation_maximum_age_millis: 30_000,
            correlation_maximum_future_skew_millis: 5_000,
        }
    }
}

/// Why the authority could not go on.
#[derive(Clone, Debug, PartialEq, Eq)]
pub struct AuthorityError {
    pub message: String,
}

/// A source of trusted wall-clock time.
pub trait Clock {
    fn now_unix_millis(&self) -> Result<u64, AuthorityError>;
}

/// The operating system's clock.
#[derive(Clone, Copy, Debug, Default)]
pub struct SystemClock;

/// Reads the system clock as the time elapsed since the Unix epoch
/// (`SystemTime::elapsed` on `UNIX_EPOCH`), in milliseconds; `None` when
/// the clock reads before the epoch. Nothing is claimed of the value: it
/// is the time.
#[verifier::external_body]
fn system_time_unix_millis() -> (r: Option<u128>) {
    std::time::UNIX_EPOCH.elapsed().ok().map(|d| d.as_millis())
}

/// Milliseconds since the Unix epoch as a topology timestamp: refused
/// when the clock read before the epoch or beyond `u64`.
pub fn unix_millis_timestamp(reading: Option<u128>) -> (r: Result<u64, AuthorityError>)
    ensures
        match reading {
            Some(ms) => if ms <= u64::MAX {
                r == Ok::<u64, AuthorityError>(ms as u64)
            } else {
                r matches Err(e) && e.message@ == "system clock does not fit the topology timestamp"@
            },
            None => r matches Err(e) && e.message@ == "system clock predates the Unix epoch"@,
        },
{
    match reading {
        Some(ms) => {
            if ms <= 0xffff_ffff_ffff_ffffu128 {
                Ok(ms as u64)
            } else {
                Err(
                    AuthorityError {
                        message: "system clock does not fit the topology timestamp".to_string(),
                    },
                )
            }
        },
        None => Err(AuthorityError { message: "system clock predates the Unix epoch".to_string() }),
    }
}

impl Clock for SystemClock {
    /// The current time in milliseconds since the Unix epoch; refused, with
    /// the reason, when the clock reads before the epoch or beyond `u64`.
    fn now_unix_millis(&self) -> (r: Result<u64, AuthorityError>)
        ensures
            r matches Err(e) ==> (e.message@ == "system clock predates the Unix epoch"@
                || e.message@ == "system clock does not fit the topology timestamp"@),
    {
        unix_millis_timestamp(system_time_unix_millis())
    }
}

/// Formats milliseconds since the Unix epoch as RFC 3339 text with chrono
/// (`DateTime::<Utc>::from_timestamp_millis`, then `to_rfc3339_opts` with
/// milliseconds and a `Z` for UTC); `None` outside chrono's range. The text is named, not stated.
#[verifier::external_body]
fn chrono_rfc3339_from_millis(millis: i64) -> (r: Option<String>)
    ensures
        opt_view(r) == rfc3339_text(millis),
{
    chrono::DateTime::<chrono::Utc>::from_timestamp_millis(millis).map(
        |d| d.to_rfc3339_opts(chrono::SecondsFormat::Millis, true),
    )
}

/// The RFC 3339 rendering of a millisecond timestamp, as chrono writes it.
pub uninterp spec fn rfc3339_text(millis: i64) -> Option<Seq<char>>;

/// A presence admitted by Odin: its exact bytes and when it was received.
#[derive(Clone, Debug, PartialEq, Eq)]
pub struct AdmittedPresence {
    pub canonical_bytes: Vec<u8>,
    pub trusted_received_at_unix_millis: u64,
    pub stored_at: String,
}

impl AdmittedPresence {
    /// An admitted presence stamped with its receive time in RFC 3339;
    /// fails when the time is outside the range RFC 3339 can express.
    pub fn new(canonical_bytes: Vec<u8>, trusted_received_at_unix_millis: u64) -> (r: Result<
        Self,
        AuthorityError,
    >)
        ensures
            match r {
                Ok(p) => p.canonical_bytes == canonical_bytes && p.trusted_received_at_unix_millis
                    == trusted_received_at_unix_millis && trusted_received_at_unix_millis
                    <= i64::MAX && rfc3339_text(trusted_received_at_unix_millis as i64) == Some(
                    p.stored_at@,
                ),
                Err(_) => trusted_received_at_unix_millis > i64::MAX || rfc3339_text(
                    trusted_received_at_unix_millis as i64,
                ) is None,
            },
    {
        match rfc3339_millis(trusted_received_at_unix_millis) {
            Ok(stored_at) => Ok(AdmittedPresence { canonical_bytes, trusted_received_at_unix_millis, stored_at }),
            Err(e) => Err(e),
        }
    }
}

/// A millisecond timestamp in RFC 3339, or an error outside its range.
pub fn rfc3339_millis(value: u64) -> (r: Result<String, AuthorityError>)
    ensures
        match r {
            Ok(s) => value <= i64::MAX && rfc3339_text(value as i64) == Some(s@),
            Err(_) => value > i64::MAX || rfc3339_text(value as i64) is None,
        },
{
    if value > 0x7fff_ffff_ffff_ffffu64 {
        return Err(AuthorityError { message: "timestamp exceeds RFC3339 range".to_string() });
    }
    match chrono_rfc3339_from_millis(value as i64) {
        Some(s) => Ok(s),
        None => Err(AuthorityError { message: "timestamp exceeds RFC3339 range".to_string() }),
    }
}

/// A correlation as stored: its exact bytes and when it was stored.
#[derive(Clone, Debug, PartialEq, Eq)]
pub struct StoredCorrelation {
    pub canonical_bytes: Vec<u8>,
    pub stored_at: String,
}

/// What a store read asks for: a target, its provider signer, and the
/// targets it depends on.
#[derive(Clone, Debug, PartialEq, Eq)]
pub struct OdinStoreQuery {
    pub target: String,
    pub provider_signer_identity_id: String,
    pub dependency_targets: Vec<String>,
}

/// What a store read found.
#[derive(Clone, Debug, PartialEq, Eq)]
pub struct OdinStoreSnapshot {
    pub query: OdinStoreQuery,
    pub presence: Option<AdmittedPresence>,
    pub correlation: Option<StoredCorrelation>,
    pub dependency_correlations: BTreeMap<String, Option<StoredCorrelation>>,
}

/// Odin's durable replay and correlation store.
pub trait OdinTopologyStore {
    fn read(&self, query: OdinStoreQuery) -> Result<OdinStoreSnapshot, AuthorityError>;

    fn compare_exchange(
        &self,
        observed: &OdinStoreSnapshot,
        replacement_presence: Option<&AdmittedPresence>,
        replacement_correlation: &StoredCorrelation,
    ) -> Result<bool, AuthorityError>;

    fn withdraw_correlation(&self, target: &str) -> Result<(), AuthorityError>;
}

/// The identity that signs Odin's correlations.
pub trait OdinCorrelationSigner {
    fn identity_id(&self) -> &str;

    fn public_key(&self) -> &[u8];

    fn sign_correlation(&self, unsigned_payload: &[u8]) -> Result<Vec<u8>, AuthorityError>;
}

/// Where Idunn's projection file lies.
#[derive(Clone, Debug, PartialEq, Eq)]
pub struct CultCacheIdunnProjectionSource {
    path: String,
}

impl CultCacheIdunnProjectionSource {
    pub fn new(path: String) -> (r: Self)
        ensures
            r.location() == path@,
    {
        CultCacheIdunnProjectionSource { path }
    }

    pub closed spec fn location(&self) -> Seq<char> {
        self.path@
    }

    /// The projection file's path.
    pub fn path(&self) -> (r: &str)
        ensures
            r@ == self.location(),
    {
        self.path.as_str()
    }
}

/// Where Odin's topology store lies.
#[derive(Clone, Debug, PartialEq, Eq)]
pub struct CultCacheOdinTopologyStore {
    path: String,
}

impl CultCacheOdinTopologyStore {
    pub fn new(path: String) -> (r: Self)
        ensures
            r.location() == path@,
    {
        CultCacheOdinTopologyStore { path }
    }

    pub closed spec fn location(&self) -> Seq<char> {
        self.path@
    }

    /// The store file's path.
    pub fn path(&self) -> (r: &str)
        ensures
            r@ == self.location(),
    {
        self.path.as_str()
    }
}

/// The key under which a target's provider trust anchor is projected.
pub fn runtime_presence_anchor_id(target: &str) -> (r: String)
    ensures
        r@ == "root/"@ + target@ + "/runtime-presence"@,
{
    join3("root/", target, "/runtime-presence")
}

/// The key under which a target's admitted presence is stored.
pub fn presence_store_key(target: &str, signer_identity_id: &str) -> (r: String)
    ensures
        r@ == target@ + "/"@ + signer_identity_id@,
{
    join3(target, "/", signer_identity_id)
}

/// One way in which what was observed differs from what was expected.
#[derive(Clone, Debug, PartialEq, Eq)]
pub struct TopologyDisagreement {
    pub code: String,
    pub expected: Option<String>,
    pub observed: Option<String>,
}

/// A disagreement as text.
pub type DisagreementView = (Seq<char>, Option<Seq<char>>, Option<Seq<char>>);

impl View for TopologyDisagreement {
    type V = DisagreementView;

    open spec fn view(&self) -> DisagreementView {
        (self.code@, opt_view(self.expected), opt_view(self.observed))
    }
}

pub open spec fn disagreement_views(v: Seq<TopologyDisagreement>) -> Seq<DisagreementView> {
    v.map_values(|d: TopologyDisagreement| d@)
}

fn opt_text_eq(a: &Option<String>, b: &Option<String>) -> (r: bool)
    ensures
        r == (opt_view(*a) == opt_view(*b)),
{
    match (a, b) {
        (Some(x), Some(y)) => str_eq(x.as_str(), y.as_str()),
        (None, None) => true,
        _ => false,
    }
}

/// The disagreements after one comparison: unchanged when the two sides
/// agree, else one more under `code`.
pub open spec fn with_comparison(
    d: Seq<DisagreementView>,
    code: Seq<char>,
    expected: Option<Seq<char>>,
    observed: Option<Seq<char>>,
) -> Seq<DisagreementView> {
    if expected != observed {
        d.push((code, expected, observed))
    } else {
        d
    }
}

/// Records a disagreement under `code` when `expected` and `observed` differ.
pub fn push_disagreement(
    disagreements: &mut Vec<TopologyDisagreement>,
    code: &str,
    expected: Option<String>,
    observed: Option<String>,
)
    ensures
        disagreement_views(final(disagreements)@) == with_comparison(
            disagreement_views(old(disagreements)@),
            code@,
            opt_view(expected),
            opt_view(observed),
        ),
{
    let ghost before = disagreements@;
    if !opt_text_eq(&expected, &observed) {
        disagreements.push(TopologyDisagreement { code: code.to_string(), expected, observed });
        assert(disagreement_views(disagreements@) =~= disagreement_views(before).push(
            disagreements@.last()@,
        ));
    } else {
        assert(disagreement_views(disagreements@) =~= disagreement_views(before));
    }
}

pub open spec fn opt_str_view(o: Option<&str>) -> Option<Seq<char>> {
    match o {
        Some(s) => Some(s@),
        None => None,
    }
}

/// Which write lease a presence is seen holding, and what disagreement
/// that raises: a warming presence without a lease raises nothing; a
/// required lease must be the current one; a lease that is not required
/// must not be held.
pub open spec fn write_lease_outcome(
    required: bool,
    current: Option<Seq<char>>,
    observed: Option<Seq<char>>,
    presence_state: Seq<char>,
) -> (Option<Seq<char>>, Option<DisagreementView>) {
    if presence_state == "warming"@ && observed is None {
        (None, None)
    } else if required && current is Some && current == observed {
        (observed, None)
    } else if required {
        (
            None,
            Some(
                (
                    "write-lease"@,
                    Some(
                        match current {
                            Some(c) => c,
                            None => "current-idunn-process-write-lease"@,
                        },
                    ),
                    observed,
                ),
            ),
        )
    } else if observed is Some {
        (None, Some(("unexpected-write-lease"@, None, observed)))
    } else {
        (None, None)
    }
}

/// Correlates the write lease a presence reports with the current one,
/// recording any disagreement.
pub fn correlate_write_lease(
    write_lease_required: bool,
    current: Option<&str>,
    observed: Option<&str>,
    presence_state: &str,
    disagreements: &mut Vec<TopologyDisagreement>,
) -> (r: Option<String>)
    ensures
        ({
            let o = write_lease_outcome(
                write_lease_required,
                opt_str_view(current),
                opt_str_view(observed),
                presence_state@,
            );
            &&& opt_view(r) == o.0
            &&& disagreement_views(final(disagreements)@) == match o.1 {
                Some(d) => disagreement_views(old(disagreements)@).push(d),
                None => disagreement_views(old(disagreements)@),
            }
        }),
{
    let ghost before = disagreements@;
    let observed_owned: Option<String> = match observed {
        Some(o) => Some(o.to_string()),
        None => None,
    };
    if str_eq(presence_state, "warming") && observed.is_none() {
        return None;
    }
    let same = match (current, observed) {
        (Some(c), Some(o)) => str_eq(c, o),
        _ => false,
    };
    if write_lease_required && current.is_some() && same {
        return observed_owned;
    }
    if write_lease_required {
        let expected = match current {
            Some(c) => c.to_string(),
            None => "current-idunn-process-write-lease".to_string(),
        };
        disagreements.push(
            TopologyDisagreement {
                code: "write-lease".to_string(),
                expected: Some(expected),
                observed: observed_owned,
            },
        );
        assert(disagreement_views(disagreements@) =~= disagreement_views(before).push(
            disagreements@.last()@,
        ));
    } else if observed.is_some() {
        disagreements.push(
            TopologyDisagreement {
                code: "unexpected-write-lease".to_string(),
                expected: None,
                observed: observed_owned,
            },
        );
        assert(disagreement_views(disagreements@) =~= disagreement_views(before).push(
            disagreements@.last()@,
        ));
    } else {
        assert(disagreement_views(disagreements@) =~= disagreement_views(before));
    }
    None
}

/// The next publisher sequence after a prior correlation's, starting at
/// one; `None` when the sequence is exhausted.
pub fn next_publisher_sequence(prior: Option<u64>) -> (r: Option<u64>)
    ensures
        r == match prior {
            None => Some(1u64),
            Some(p) => if p < u64::MAX {
                Some((p + 1) as u64)
            } else {
                None::<u64>
            },
        },
{
    match prior {
        None => Some(1),
        Some(p) => p.checked_add(1),
    }
}


/// What the authority reads of an Expected incarnation.
#[derive(Clone, Debug, PartialEq, Eq)]
pub struct ExpectedFacts {
    pub target: String,
    pub runtime_id: String,
    pub expected_signer_identity_id: String,
    pub canonical_sha256: String,
    pub write_lease_required: bool,
    pub plan_id: String,
    pub incarnation_id: String,
    pub sealed_release_id: String,
    pub state_schema_generation: Option<String>,
    pub state_contract_sha256: Option<String>,
}

/// What the authority reads of a provider trust anchor.
#[derive(Clone, Debug, PartialEq, Eq)]
pub struct AnchorFacts {
    pub trust_anchor_id: String,
    pub service_id: String,
    pub runtime_id: String,
    pub signer_identity_id: String,
    pub signing_purpose: String,
    pub signed_schema: String,
    pub bound_at_unix_millis: u64,
    pub expires_at_unix_millis: Option<u64>,
}

/// What the authority reads of a runtime activation.
#[derive(Clone, Debug, PartialEq, Eq)]
pub struct ActivationFacts {
    pub idunn_signer_identity_id: String,
    pub expected_projection_sha256: String,
    pub runtime_id: String,
    pub runtime_instance_id: String,
    pub canonical_sha256: String,
}

/// What the authority reads of a process write lease.
#[derive(Clone, Debug, PartialEq, Eq)]
pub struct LeaseFacts {
    pub target: String,
    pub expected_projection_sha256: String,
    pub plan_id: String,
    pub incarnation_id: String,
    pub sealed_release_id: String,
    pub activation_witness_sha256: String,
    pub state_schema_generation: String,
    pub state_contract_sha256: String,
    pub runtime_id: String,
    pub runtime_instance_id: String,
    pub canonical_sha256: String,
}

pub open spec fn anchor_time_current(a: AnchorFacts, now: u64) -> bool {
    !(a.bound_at_unix_millis > now || (a.expires_at_unix_millis matches Some(x) && now >= x))
}

/// The disagreements between an Expected incarnation, its provider trust
/// anchor and its activation, in order of their codes.
pub open spec fn authority_disagreements(
    e: ExpectedFacts,
    anchor: Option<AnchorFacts>,
    activation: Option<ActivationFacts>,
    idunn_identity_id: Seq<char>,
    presence_purpose: Seq<char>,
    presence_schema: Seq<char>,
    now: u64,
) -> Seq<DisagreementView> {
    let d0 = Seq::<DisagreementView>::empty();
    let d1 = match activation {
        Some(a) => {
            let x = with_comparison(
                d0,
                "activation-expected-projection"@,
                Some(e.canonical_sha256@),
                Some(a.expected_projection_sha256@),
            );
            let y = if a.idunn_signer_identity_id@ != idunn_identity_id {
                x.push(
                    (
                        "activation-idunn-signer"@,
                        Some(idunn_identity_id),
                        Some(a.idunn_signer_identity_id@),
                    ),
                )
            } else {
                x
            };
            with_comparison(y, "activation-runtime-id"@, Some(e.runtime_id@), Some(a.runtime_id@))
        },
        None => d0.push(("current-activation-missing"@, Some(e.canonical_sha256@), None)),
    };
    match anchor {
        Some(an) => {
            let a1 = with_comparison(
                d1,
                "provider-runtime-id"@,
                Some(e.runtime_id@),
                Some(an.runtime_id@),
            );
            let a2 = with_comparison(a1, "provider-service-id"@, Some(e.target@), Some(an.service_id@));
            let a3 = with_comparison(
                a2,
                "provider-signed-schema"@,
                Some(presence_schema),
                Some(an.signed_schema@),
            );
            let a4 = with_comparison(
                a3,
                "provider-signer-identity"@,
                Some(e.expected_signer_identity_id@),
                Some(an.signer_identity_id@),
            );
            let a5 = with_comparison(
                a4,
                "provider-signing-purpose"@,
                Some(presence_purpose),
                Some(an.signing_purpose@),
            );
            let a6 = with_comparison(
                a5,
                "provider-trust-anchor-id"@,
                Some("root/"@ + e.target@ + "/runtime-presence"@),
                Some(an.trust_anchor_id@),
            );
            if anchor_time_current(an, now) {
                a6
            } else {
                a6.push(
                    (
                        "provider-trust-anchor-time"@,
                        Some("current-at:"@ + decimal(now as nat)),
                        Some(
                            "bound:"@ + decimal(an.bound_at_unix_millis as nat) + ";expires:"@
                                + match an.expires_at_unix_millis {
                                Some(x) => decimal(x as nat),
                                None => "none"@,
                            },
                        ),
                    ),
                )
            }
        },
        None => d1.push(
            ("provider-trust-anchor-missing"@, Some(e.expected_signer_identity_id@), None),
        ),
    }
}

fn some_string(s: &String) -> (r: Option<String>)
    ensures
        opt_view(r) == Some(s@),
{
    Some(copy_string(s))
}

fn some_text(s: &str) -> (r: Option<String>)
    ensures
        opt_view(r) == Some(s@),
{
    Some(s.to_string())
}

fn prefixed_decimal(prefix: &str, n: u64) -> (r: String)
    ensures
        r@ == prefix@ + decimal(n as nat),
{
    let mut s = prefix.to_string();
    push_decimal(&mut s, n);
    s
}

/// The disagreements between an Expected incarnation, its provider trust
/// anchor and its activation, sorted by code. `presence_purpose` and
/// `presence_schema` are the signing purpose and schema a runtime presence
/// must be anchored to.
pub fn runtime_authority_disagreements(
    expected: &ExpectedFacts,
    anchor: &Option<AnchorFacts>,
    activation: &Option<ActivationFacts>,
    idunn_identity_id: &str,
    presence_purpose: &str,
    presence_schema: &str,
    now: u64,
) -> (r: Vec<TopologyDisagreement>)
    ensures
        disagreement_views(r@) == authority_disagreements(
            *expected,
            *anchor,
            *activation,
            idunn_identity_id@,
            presence_purpose@,
            presence_schema@,
            now,
        ),
{
    let mut d: Vec<TopologyDisagreement> = Vec::new();
    assert(disagreement_views(d@) =~= Seq::<DisagreementView>::empty());
    match activation {
        Some(a) => {
            push_disagreement(
                &mut d,
                "activation-expected-projection",
                some_string(&expected.canonical_sha256),
                some_string(&a.expected_projection_sha256),
            );
            if !str_eq(a.idunn_signer_identity_id.as_str(), idunn_identity_id) {
                let ghost before = d@;
                d.push(
                    TopologyDisagreement {
                        code: "activation-idunn-signer".to_string(),
                        expected: some_text(idunn_identity_id),
                        observed: some_string(&a.idunn_signer_identity_id),
                    },
                );
                assert(disagreement_views(d@) =~= disagreement_views(before).push(d@.last()@));
            }
            push_disagreement(
                &mut d,
                "activation-runtime-id",
                some_string(&expected.runtime_id),
                some_string(&a.runtime_id),
            );
        },
        None => {
            let ghost before = d@;
            d.push(
                TopologyDisagreement {
                    code: "current-activation-missing".to_string(),
                    expected: some_string(&expected.canonical_sha256),
                    observed: None,
                },
            );
            assert(disagreement_views(d@) =~= disagreement_views(before).push(d@.last()@));
        },
    }
    match anchor {
        Some(an) => {
            push_disagreement(
                &mut d,
                "provider-runtime-id",
                some_string(&expected.runtime_id),
                some_string(&an.runtime_id),
            );
            push_disagreement(
                &mut d,
                "provider-service-id",
                some_string(&expected.target),
                some_string(&an.service_id),
            );
            push_disagreement(
                &mut d,
                "provider-signed-schema",
                some_text(presence_schema),
                some_string(&an.signed_schema),
            );
            push_disagreement(
                &mut d,
                "provider-signer-identity",
                some_string(&expected.expected_signer_identity_id),
                some_string(&an.signer_identity_id),
            );
            push_disagreement(
                &mut d,
                "provider-signing-purpose",
                some_text(presence_purpose),
                some_string(&an.signing_purpose),
            );
            push_disagreement(
                &mut d,
                "provider-trust-anchor-id",
                Some(runtime_presence_anchor_id(expected.target.as_str())),
                some_string(&an.trust_anchor_id),
            );
            let stale = an.bound_at_unix_millis > now || match an.expires_at_unix_millis {
                Some(x) => now >= x,
                None => false,
            };
            if stale {
                let mut observed = prefixed_decimal("bound:", an.bound_at_unix_millis);
                push_str(&mut observed, ";expires:");
                match an.expires_at_unix_millis {
                    Some(x) => push_decimal(&mut observed, x),
                    None => push_str(&mut observed, "none"),
                }
                let ghost before = d@;
                d.push(
                    TopologyDisagreement {
                        code: "provider-trust-anchor-time".to_string(),
                        expected: Some(prefixed_decimal("current-at:", now)),
                        observed: Some(observed),
                    },
                );
                assert(disagreement_views(d@) =~= disagreement_views(before).push(d@.last()@));
            }
        },
        None => {
            let ghost before = d@;
            d.push(
                TopologyDisagreement {
                    code: "provider-trust-anchor-missing".to_string(),
                    expected: some_string(&expected.expected_signer_identity_id),
                    observed: None,
                },
            );
            assert(disagreement_views(d@) =~= disagreement_views(before).push(d@.last()@));
        },
    }
    d
}

/// Whether a write lease was issued for exactly this incarnation and
/// activation.
pub open spec fn lease_binds(e: ExpectedFacts, a: ActivationFacts, l: LeaseFacts) -> bool {
    &&& l.target@ == e.target@
    &&& l.expected_projection_sha256@ == e.canonical_sha256@
    &&& l.plan_id@ == e.plan_id@
    &&& l.incarnation_id@ == e.incarnation_id@
    &&& l.sealed_release_id@ == e.sealed_release_id@
    &&& l.activation_witness_sha256@ == a.canonical_sha256@
    &&& Some(l.state_schema_generation@) == opt_view(e.state_schema_generation)
    &&& Some(l.state_contract_sha256@) == opt_view(e.state_contract_sha256)
    &&& l.runtime_id@ == e.runtime_id@
    &&& l.runtime_instance_id@ == a.runtime_instance_id@
}

/// The projected write lease that counts as current, or the disagreement
/// it raises: it counts when a lease is required and it binds to the
/// current activation.
pub open spec fn current_lease_outcome(
    e: ExpectedFacts,
    activation: Option<ActivationFacts>,
    lease: Option<LeaseFacts>,
) -> (Option<Seq<char>>, Option<DisagreementView>) {
    match lease {
        None => (None, None),
        Some(l) => {
            let binds = match activation {
                Some(a) => lease_binds(e, a, l),
                None => false,
            };
            if e.write_lease_required && binds {
                (Some(l.canonical_sha256@), None)
            } else {
                (
                    None,
                    Some(
                        (
                            "projected-write-lease"@,
                            Some(
                                "expected:"@ + e.canonical_sha256@ + ";activation:"@
                                    + match activation {
                                    Some(a) => a.canonical_sha256@,
                                    None => "none"@,
                                },
                            ),
                            Some(l.canonical_sha256@),
                        ),
                    ),
                )
            }
        },
    }
}

fn opt_text_is(a: &Option<String>, b: &String) -> (r: bool)
    ensures
        r == (opt_view(*a) == Some(b@)),
{
    match a {
        Some(x) => str_eq(x.as_str(), b.as_str()),
        None => false,
    }
}

fn lease_binds_exec(e: &ExpectedFacts, a: &ActivationFacts, l: &LeaseFacts) -> (r: bool)
    ensures
        r == lease_binds(*e, *a, *l),
{
    str_eq(l.target.as_str(), e.target.as_str()) && str_eq(
        l.expected_projection_sha256.as_str(),
        e.canonical_sha256.as_str(),
    ) && str_eq(l.plan_id.as_str(), e.plan_id.as_str()) && str_eq(
        l.incarnation_id.as_str(),
        e.incarnation_id.as_str(),
    ) && str_eq(l.sealed_release_id.as_str(), e.sealed_release_id.as_str()) && str_eq(
        l.activation_witness_sha256.as_str(),
        a.canonical_sha256.as_str(),
    ) && opt_text_is(&e.state_schema_generation, &l.state_schema_generation) && opt_text_is(
        &e.state_contract_sha256,
        &l.state_contract_sha256,
    ) && str_eq(l.runtime_id.as_str(), e.runtime_id.as_str()) && str_eq(
        l.runtime_instance_id.as_str(),
        a.runtime_instance_id.as_str(),
    )
}

/// Classifies the projected write lease.
pub fn classify_current_lease(
    expected: &ExpectedFacts,
    activation: &Option<ActivationFacts>,
    lease: &Option<LeaseFacts>,
) -> (r: (Option<String>, Option<TopologyDisagreement>))
    ensures
        ({
            let o = current_lease_outcome(*expected, *activation, *lease);
            &&& opt_view(r.0) == o.0
            &&& match r.1 {
                Some(d) => o.1 == Some(d@),
                None => o.1 is None,
            }
        }),
{
    let l = match lease {
        Some(l) => l,
        None => {
            return (None, None);
        },
    };
    let binds = match activation {
        Some(a) => lease_binds_exec(expected, a, l),
        None => false,
    };
    if expected.write_lease_required && binds {
        return (Some(copy_string(&l.canonical_sha256)), None);
    }
    let mut text = join3("expected:", expected.canonical_sha256.as_str(), ";activation:");
    match activation {
        Some(a) => push_str(&mut text, a.canonical_sha256.as_str()),
        None => push_str(&mut text, "none"),
    }
    (
        None,
        Some(
            TopologyDisagreement {
                code: "projected-write-lease".to_string(),
                expected: Some(text),
                observed: Some(copy_string(&l.canonical_sha256)),
            },
        ),
    )
}

/// A capability a runtime or dependency is expected to offer.
#[derive(Clone, Debug, PartialEq, Eq)]
pub struct CapabilityRequirement {
    pub capability: String,
    pub schema: String,
    pub compatibility: String,
    pub minimum_capacity: u64,
}

/// A capability a provider was observed to offer.
#[derive(Clone, Debug, PartialEq, Eq)]
pub struct ObservedCapability {
    pub capability: String,
    pub schema: String,
    pub compatibility: String,
    pub capacity: u64,
}

/// What the authority reads of an expected dependency.
#[derive(Clone, Debug, PartialEq, Eq)]
pub struct DependencyRequirement {
    pub kind: String,
    pub capability: String,
    pub schema: String,
    pub compatibility: String,
    pub minimum_capacity: u64,
    pub provider_id: Option<String>,
    pub provider_authority: Option<String>,
    pub provider_expected_projection_sha256: Option<String>,
    pub provider_endpoint: Option<String>,
}

/// The providers of the dependencies that Idunn manages as incarnations,
/// in order.
pub open spec fn managed_targets(reqs: Seq<DependencyRequirement>) -> Seq<Seq<char>>
    decreases reqs.len(),
{
    if reqs.len() == 0 {
        Seq::empty()
    } else {
        let rest = managed_targets(reqs.drop_last());
        let r = reqs.last();
        if opt_view(r.provider_authority) == Some("managed-incarnation"@) && r.provider_id is Some {
            rest.push(r.provider_id->0@)
        } else {
            rest
        }
    }
}

/// The providers of the managed-incarnation dependencies.
pub fn managed_dependency_targets(requirements: &Vec<DependencyRequirement>) -> (r: Vec<String>)
    ensures
        r@.map_values(|s: String| s@) == managed_targets(requirements@),
{
    let mut out: Vec<String> = Vec::new();
    let mut i: usize = 0;
    while i < requirements.len()
        invariant
            i <= requirements@.len(),
            out@.map_values(|s: String| s@) == managed_targets(requirements@.subrange(0, i as int)),
        decreases requirements@.len() - i,
    {
        let r = &requirements[i];
        proof {
            let s = requirements@.subrange(0, i + 1);
            assert(s.drop_last() =~= requirements@.subrange(0, i as int));
            assert(s.last() == requirements@[i as int]);
        }
        let managed = match &r.provider_authority {
            Some(a) => str_eq(a.as_str(), "managed-incarnation"),
            None => false,
        };
        if managed {
            match &r.provider_id {
                Some(p) => {
                    let ghost before = out@;
                    out.push(copy_string(p));
                    assert(out@.map_values(|s: String| s@) =~= before.map_values(|s: String| s@).push(
                        p@,
                    ));
                },
                None => {},
            }
        }
        i = i + 1;
    }
    assert(requirements@.subrange(0, i as int) =~= requirements@);
    out
}

pub open spec fn capability_matches(c: ObservedCapability, r: DependencyRequirement) -> bool {
    c.capability@ == r.capability@ && c.schema@ == r.schema@ && c.compatibility@ == r.compatibility@
}

/// The capacity of the first observed capability that matches a
/// requirement, if any.
pub open spec fn matched_capacity(caps: Seq<ObservedCapability>, r: DependencyRequirement) -> Option<u64>
    decreases caps.len(),
{
    if caps.len() == 0 {
        None
    } else if capability_matches(caps[0], r) {
        Some(caps[0].capacity)
    } else {
        matched_capacity(caps.drop_first(), r)
    }
}

/// The capacity a provider offers for a requirement, and whether the
/// dependency is ready: the provider is ready and offers at least the
/// minimum.
pub fn dependency_capacity_and_readiness(
    provider_ready: bool,
    provider_capabilities: &Vec<ObservedCapability>,
    requirement: &DependencyRequirement,
) -> (r: (Option<u64>, bool))
    ensures
        r.0 == matched_capacity(provider_capabilities@, *requirement),
        r.1 == (provider_ready && match r.0 {
            Some(c) => c >= requirement.minimum_capacity,
            None => false,
        }),
{
    let mut i: usize = 0;
    assert(provider_capabilities@.subrange(0, provider_capabilities@.len() as int)
        =~= provider_capabilities@);
    while i < provider_capabilities.len()
        invariant
            i <= provider_capabilities@.len(),
            matched_capacity(provider_capabilities@, *requirement) == matched_capacity(
                provider_capabilities@.subrange(i as int, provider_capabilities@.len() as int),
                *requirement,
            ),
        decreases provider_capabilities@.len() - i,
    {
        let c = &provider_capabilities[i];
        let ghost rest = provider_capabilities@.subrange(i as int, provider_capabilities@.len() as int);
        assert(rest[0] == *c);
        if str_eq(c.capability.as_str(), requirement.capability.as_str()) && str_eq(
            c.schema.as_str(),
            requirement.schema.as_str(),
        ) && str_eq(c.compatibility.as_str(), requirement.compatibility.as_str()) {
            let capacity = c.capacity;
            return (Some(capacity), provider_ready && capacity >= requirement.minimum_capacity);
        }
        assert(rest.drop_first() =~= provider_capabilities@.subrange(
            i + 1,
            provider_capabilities@.len() as int,
        ));
        i = i + 1;
    }
    (None, false)
}

/// What is known of a dependency's provider when its evidence is gathered:
/// the digest of its current Expected projection (none without one), the
/// stable endpoint of its route, whether its runtime authority stands with
/// no disagreement, and whether its stored correlation authenticates.
pub struct ProviderFacts {
    pub projection_sha256: Option<String>,
    pub stable_endpoint: Option<String>,
    pub authority_clean: bool,
    pub correlation_authenticated: bool,
}

/// A provider's correlation counts as evidence for a requirement only for a
/// named, Idunn-managed provider whose current projection is the one the
/// requirement names (an absent digest is the empty one), on the required
/// endpoint if one is required, with clean authority and an authenticated
/// correlation.
pub open spec fn provider_admissible(r: DependencyRequirement, p: ProviderFacts) -> bool {
    &&& r.provider_id is Some
    &&& opt_view(r.provider_authority) == Some("managed-incarnation"@)
    &&& p.projection_sha256 matches Some(sha) && sha@ == match r.provider_expected_projection_sha256 {
        Some(x) => x@,
        None => Seq::empty(),
    }
    &&& (r.provider_endpoint matches Some(e) ==> opt_view(p.stable_endpoint) == Some(e@))
    &&& p.authority_clean
    &&& p.correlation_authenticated
}

/// Whether a provider's correlation counts as evidence for a requirement.
pub fn provider_evidence_admissible(requirement: &DependencyRequirement, provider: &ProviderFacts) -> (r:
    bool)
    ensures
        r == provider_admissible(*requirement, *provider),
{
    proof {
        reveal_strlit("");
    }
    if requirement.provider_id.is_none() {
        return false;
    }
    let managed = match &requirement.provider_authority {
        Some(a) => str_eq(a.as_str(), "managed-incarnation"),
        None => false,
    };
    if !managed {
        return false;
    }
    let sha = match &provider.projection_sha256 {
        Some(s) => s,
        None => { return false; },
    };
    let wanted: &str = match &requirement.provider_expected_projection_sha256 {
        Some(x) => x.as_str(),
        None => "",
    };
    assert(wanted@ == match requirement.provider_expected_projection_sha256 {
        Some(x) => x@,
        None => Seq::<char>::empty(),
    });
    if !str_eq(sha.as_str(), wanted) {
        return false;
    }
    let endpoint_ok = match &requirement.provider_endpoint {
        Some(e) => match &provider.stable_endpoint {
            Some(s) => str_eq(s.as_str(), e.as_str()),
            None => false,
        },
        None => true,
    };
    endpoint_ok && provider.authority_clean && provider.correlation_authenticated
}

/// The kind of a dependency and whether its evidence was ready.
#[derive(Clone, Debug, PartialEq, Eq)]
pub struct DependencyStatus {
    pub kind: String,
    pub ready: bool,
}

/// A correlation is ready when the presence is active, nothing disagrees,
/// and every dependency that is not optional is ready.
pub fn correlation_ready(
    presence_state: Option<&str>,
    disagreements_empty: bool,
    dependencies: &Vec<DependencyStatus>,
) -> (r: bool)
    ensures
        r == (opt_str_view(presence_state) == Some("active"@) && disagreements_empty && forall|i: int|
            0 <= i < dependencies@.len() ==> (#[trigger] dependencies@[i]).kind@ == "optional"@
                || dependencies@[i].ready),
{
    let active = match presence_state {
        Some(s) => str_eq(s, "active"),
        None => false,
    };
    if !active || !disagreements_empty {
        return false;
    }
    let mut i: usize = 0;
    while i < dependencies.len()
        invariant
            i <= dependencies@.len(),
            forall|k: int|
                0 <= k < i ==> (#[trigger] dependencies@[k]).kind@ == "optional"@
                    || dependencies@[k].ready,
        decreases dependencies@.len() - i,
    {
        let d = &dependencies[i];
        if !(str_eq(d.kind.as_str(), "optional") || d.ready) {
            return false;
        }
        i = i + 1;
    }
    true
}

/// `index` in at least three digits, zero-padded (`{:03}`).
pub open spec fn padded3(n: nat) -> Seq<char> {
    if n < 10 {
        "00"@ + decimal(n)
    } else if n < 100 {
        "0"@ + decimal(n)
    } else {
        decimal(n)
    }
}

pub open spec fn capability_text(c: CapabilityRequirement) -> Seq<char> {
    c.capability@ + "/"@ + c.schema@ + "/"@ + c.compatibility@ + " capacity>="@ + decimal(
        c.minimum_capacity as nat,
    )
}

/// The disagreements of a correlation without a signed presence: the
/// presence itself, then each expected capability by its index.
pub open spec fn missing_presence(caps: Seq<CapabilityRequirement>) -> Seq<DisagreementView> {
    seq![("signed-presence-missing"@, Some("dual-authenticated-runtime-presence"@), None)] + Seq::new(
        caps.len(),
        |i: int|
            (
                "expected-capability-"@ + padded3(i as nat) + "-missing"@,
                Some(capability_text(caps[i])),
                None::<Seq<char>>,
            ),
    )
}

fn padded3_exec(n: usize) -> (r: String)
    ensures
        r@ == padded3(n as nat),
{
    let mut s = if n < 10 {
        "00".to_string()
    } else if n < 100 {
        "0".to_string()
    } else {
        String::new()
    };
    push_decimal(&mut s, n as u64);
    s
}

/// The disagreements raised when no signed presence is current.
pub fn missing_presence_disagreements(capabilities: &Vec<CapabilityRequirement>) -> (r: Vec<
    TopologyDisagreement,
>)
    ensures
        disagreement_views(r@) == missing_presence(capabilities@),
{
    let mut d: Vec<TopologyDisagreement> = Vec::new();
    d.push(
        TopologyDisagreement {
            code: "signed-presence-missing".to_string(),
            expected: Some("dual-authenticated-runtime-presence".to_string()),
            observed: None,
        },
    );
    let mut i: usize = 0;
    while i < capabilities.len()
        invariant
            i <= capabilities@.len(),
            disagreement_views(d@) == missing_presence(capabilities@.subrange(0, i as int)),
        decreases capabilities@.len() - i,
    {
        let c = &capabilities[i];
        let mut code = "expected-capability-".to_string();
        let pad = padded3_exec(i);
        push_str(&mut code, pad.as_str());
        push_str(&mut code, "-missing");
        let mut text = join3(c.capability.as_str(), "/", c.schema.as_str());
        push_str(&mut text, "/");
        push_str(&mut text, c.compatibility.as_str());
        push_str(&mut text, " capacity>=");
        push_decimal(&mut text, c.minimum_capacity);
        let ghost before = d@;
        d.push(TopologyDisagreement { code, expected: Some(text), observed: None });
        proof {
            assert(disagreement_views(d@) =~= disagreement_views(before).push(d@.last()@));
            assert(missing_presence(capabilities@.subrange(0, i + 1)) =~= missing_presence(
                capabilities@.subrange(0, i as int),
            ).push(d@.last()@));
        }
        i = i + 1;
    }
    assert(capabilities@.subrange(0, i as int) =~= capabilities@);
    d
}

/// Where an entry with code `c` goes into a list sorted by code: after
/// every entry whose code is not greater.
pub open spec fn insertion_point(s: Seq<DisagreementView>, c: Seq<char>, i: int) -> int
    decreases s.len() - i,
{
    if i >= s.len() {
        s.len() as int
    } else if chars_lt(c, s[i].0) {
        i
    } else {
        insertion_point(s, c, i + 1)
    }
}

/// The list sorted by code, entries with equal codes kept in their order
/// (a stable sort).
pub open spec fn sort_by_code(s: Seq<DisagreementView>) -> Seq<DisagreementView>
    decreases s.len(),
{
    if s.len() == 0 {
        s
    } else {
        let t = sort_by_code(s.drop_last());
        t.insert(insertion_point(t, s.last().0, 0), s.last())
    }
}

proof fn lemma_insertion_point_range(s: Seq<DisagreementView>, c: Seq<char>, i: int)
    requires
        0 <= i <= s.len(),
    ensures
        i <= insertion_point(s, c, i) <= s.len(),
    decreases s.len() - i,
{
    if i < s.len() && !chars_lt(c, s[i].0) {
        lemma_insertion_point_range(s, c, i + 1);
    }
}

proof fn lemma_sort_by_code_len(s: Seq<DisagreementView>)
    ensures
        sort_by_code(s).len() == s.len(),
    decreases s.len(),
{
    if s.len() > 0 {
        lemma_sort_by_code_len(s.drop_last());
        lemma_insertion_point_range(sort_by_code(s.drop_last()), s.last().0, 0);
    }
}

/// No entry has a code below the code of an entry before it.
pub open spec fn ordered_by_code(s: Seq<DisagreementView>) -> bool {
    forall|i: int, j: int| 0 <= i < j < s.len() ==> !chars_lt(#[trigger] s[j].0, #[trigger] s[i].0)
}

proof fn lemma_insertion_point_bounds(s: Seq<DisagreementView>, c: Seq<char>, i: int)
    requires
        0 <= i <= s.len(),
    ensures
        ({
            let p = insertion_point(s, c, i);
            &&& i <= p <= s.len()
            &&& forall|k: int| i <= k < p ==> !chars_lt(c, #[trigger] s[k].0)
            &&& p < s.len() ==> chars_lt(c, s[p].0)
        }),
    decreases s.len() - i,
{
    if i < s.len() && !chars_lt(c, s[i].0) {
        lemma_insertion_point_bounds(s, c, i + 1);
    }
}

/// Sorting by code gives a list in code order, as long as the input.
pub proof fn law_sort_by_code_is_ordered(s: Seq<DisagreementView>)
    ensures
        ordered_by_code(sort_by_code(s)),
        sort_by_code(s).len() == s.len(),
    decreases s.len(),
{
    lemma_sort_by_code_len(s);
    if s.len() > 0 {
        let t = sort_by_code(s.drop_last());
        let x = s.last();
        law_sort_by_code_is_ordered(s.drop_last());
        lemma_insertion_point_bounds(t, x.0, 0);
        let p = insertion_point(t, x.0, 0);
        let r = t.insert(p, x);
        assert forall|i: int, j: int| 0 <= i < j < r.len() implies !chars_lt(
            #[trigger] r[j].0,
            #[trigger] r[i].0,
        ) by {
            if j < p {
                assert(r[i] == t[i] && r[j] == t[j]);
            } else if j == p {
                assert(r[i] == t[i]);
                lemma_chars_lt_total(x.0, t[i].0);
                lemma_chars_lt_asymmetric(x.0, t[i].0);
            } else if i < p {
                assert(r[i] == t[i] && r[j] == t[j - 1]);
            } else if i == p {
                assert(r[j] == t[j - 1]);
                assert(chars_lt(x.0, t[p].0));
                if j - 1 > p {
                    assert(!chars_lt(t[j - 1].0, t[p].0));
                    lemma_chars_lt_total(t[p].0, t[j - 1].0);
                    if chars_lt(t[p].0, t[j - 1].0) {
                        lemma_chars_lt_transitive(x.0, t[p].0, t[j - 1].0);
                    }
                }
                lemma_chars_lt_asymmetric(x.0, t[j - 1].0);
            } else {
                assert(r[i] == t[i - 1] && r[j] == t[j - 1]);
            }
        }
    }
}

pub(crate) fn duplicate_disagreement(d: &TopologyDisagreement) -> (r: TopologyDisagreement)
    ensures
        r@ == d@,
{
    TopologyDisagreement {
        code: copy_string(&d.code),
        expected: copy_opt_string(&d.expected),
        observed: copy_opt_string(&d.observed),
    }
}

/// Sorts disagreements by code, keeping the order of equal codes.
pub fn sort_disagreements_by_code(v: &Vec<TopologyDisagreement>) -> (r: Vec<TopologyDisagreement>)
    ensures
        disagreement_views(r@) == sort_by_code(disagreement_views(v@)),
{
    let ghost all = disagreement_views(v@);
    let mut out: Vec<TopologyDisagreement> = Vec::new();
    let mut k: usize = 0;
    assert(disagreement_views(out@) =~= sort_by_code(all.subrange(0, 0)));
    while k < v.len()
        invariant
            k <= v@.len(),
            all == disagreement_views(v@),
            disagreement_views(out@) == sort_by_code(all.subrange(0, k as int)),
        decreases v@.len() - k,
    {
        let item = duplicate_disagreement(&v[k]);
        let code = chars_of(item.code.as_str());
        let ghost t = disagreement_views(out@);
        proof {
            lemma_sort_by_code_len(all.subrange(0, k as int));
        }
        let mut p: usize = 0;
        while p < out.len() && compare_chars(
            code.as_slice(),
            chars_of(out[p].code.as_str()).as_slice(),
        ) != TextOrder::Less
            invariant
                p <= out@.len(),
                t == disagreement_views(out@),
                code@ == item.code@,
                insertion_point(t, code@, 0) == insertion_point(t, code@, p as int),
            decreases out@.len() - p,
        {
            assert(t[p as int].0 == out@[p as int].code@);
            p = p + 1;
        }
        proof {
            if p < out@.len() {
                assert(t[p as int].0 == out@[p as int].code@);
            }
            let s = all.subrange(0, k + 1);
            assert(s.drop_last() =~= all.subrange(0, k as int));
            assert(s.last() == item@);
        }
        out.insert(p, item);
        assert(disagreement_views(out@) =~= t.insert(p as int, item@));
        k = k + 1;
    }
    assert(all.subrange(0, k as int) =~= all);
    out
}

/// What was found of the target's presence.
#[derive(Clone, Debug, PartialEq, Eq)]
pub enum PresenceFinding {
    /// No presence is stored.
    Absent,
    /// A stored presence that belongs to another activation.
    Stale { expected_activation_sha256: Option<String>, observed_activation_sha256: String },
    /// A current, authenticated presence with what its correlation found.
    Current {
        disagreements: Vec<TopologyDisagreement>,
        state: String,
        write_lease_sha256: Option<String>,
    },
}

/// The disagreements of a correlation, sorted by code, and the write lease
/// it observes: those of the projection, then of the presence (a stale one
/// raises one of its own), then the projected lease's; without a current
/// presence, the missing presence and capabilities; with one, its write
/// lease.
pub open spec fn correlation_findings(
    projection: Seq<DisagreementView>,
    presence: PresenceFinding,
    lease: Option<DisagreementView>,
    capabilities: Seq<CapabilityRequirement>,
    write_lease_required: bool,
    current_lease: Option<Seq<char>>,
) -> (Seq<DisagreementView>, Option<Seq<char>>) {
    let p = match presence {
        PresenceFinding::Absent => projection,
        PresenceFinding::Stale { expected_activation_sha256, observed_activation_sha256 } => projection.push(
            (
                "stored-presence-not-current"@,
                opt_view(expected_activation_sha256),
                Some(observed_activation_sha256@),
            ),
        ),
        PresenceFinding::Current { disagreements, .. } => projection + disagreement_views(disagreements@),
    };
    let l = match lease {
        Some(x) => p.push(x),
        None => p,
    };
    let m = if presence is Current {
        l
    } else {
        l + missing_presence(capabilities)
    };
    let w = match presence {
        PresenceFinding::Current { state, write_lease_sha256, .. } => write_lease_outcome(
            write_lease_required,
            current_lease,
            opt_view(write_lease_sha256),
            state@,
        ),
        _ => (None, None),
    };
    let all = match w.1 {
        Some(x) => m.push(x),
        None => m,
    };
    (sort_by_code(all), w.0)
}

/// Assembles a correlation's disagreements and observed write lease.
pub fn correlation_disagreements(
    projection: &Vec<TopologyDisagreement>,
    presence: &PresenceFinding,
    lease_disagreement: &Option<TopologyDisagreement>,
    capabilities: &Vec<CapabilityRequirement>,
    write_lease_required: bool,
    current_lease_sha256: Option<&str>,
) -> (r: (Vec<TopologyDisagreement>, Option<String>))
    ensures
        ({
            let f = correlation_findings(
                disagreement_views(projection@),
                *presence,
                match *lease_disagreement {
                    Some(d) => Some(d@),
                    None => None,
                },
                capabilities@,
                write_lease_required,
                opt_str_view(current_lease_sha256),
            );
            disagreement_views(r.0@) == f.0 && opt_view(r.1) == f.1
        }),
{
    let mut d: Vec<TopologyDisagreement> = Vec::new();
    let mut i: usize = 0;
    while i < projection.len()
        invariant
            i <= projection@.len(),
            disagreement_views(d@) == disagreement_views(projection@.subrange(0, i as int)),
        decreases projection@.len() - i,
    {
        let ghost before = d@;
        d.push(duplicate_disagreement(&projection[i]));
        proof {
            assert(disagreement_views(d@) =~= disagreement_views(before).push(d@.last()@));
            assert(disagreement_views(projection@.subrange(0, i + 1)) =~= disagreement_views(
                projection@.subrange(0, i as int),
            ).push(projection@[i as int]@));
        }
        i = i + 1;
    }
    assert(projection@.subrange(0, i as int) =~= projection@);
    let mut observed_write_lease: Option<String> = None;
    match presence {
        PresenceFinding::Absent => {},
        PresenceFinding::Stale { expected_activation_sha256, observed_activation_sha256 } => {
            let ghost before = d@;
            d.push(
                TopologyDisagreement {
                    code: "stored-presence-not-current".to_string(),
                    expected: copy_opt_string(expected_activation_sha256),
                    observed: Some(copy_string(observed_activation_sha256)),
                },
            );
            assert(disagreement_views(d@) =~= disagreement_views(before).push(d@.last()@));
        },
        PresenceFinding::Current { disagreements, .. } => {
            let ghost before = d@;
            let mut j: usize = 0;
            while j < disagreements.len()
                invariant
                    j <= disagreements@.len(),
                    disagreement_views(d@) == disagreement_views(before) + disagreement_views(
                        disagreements@.subrange(0, j as int),
                    ),
                decreases disagreements@.len() - j,
            {
                let ghost prev = d@;
                d.push(duplicate_disagreement(&disagreements[j]));
                proof {
                    assert(disagreement_views(d@) =~= disagreement_views(prev).push(d@.last()@));
                    assert(disagreement_views(disagreements@.subrange(0, j + 1)) =~= disagreement_views(
                        disagreements@.subrange(0, j as int),
                    ).push(disagreements@[j as int]@));
                    assert(disagreement_views(d@) =~= disagreement_views(before) + disagreement_views(
                        disagreements@.subrange(0, j + 1),
                    ));
                }
                j = j + 1;
            }
            assert(disagreements@.subrange(0, j as int) =~= disagreements@);
        },
    }
    match lease_disagreement {
        Some(x) => {
            let ghost before = d@;
            d.push(duplicate_disagreement(x));
            assert(disagreement_views(d@) =~= disagreement_views(before).push(x@));
        },
        None => {},
    }
    match presence {
        PresenceFinding::Current { state, write_lease_sha256, .. } => {
            let observed = match write_lease_sha256 {
                Some(s) => Some(s.as_str()),
                None => None,
            };
            assert(opt_str_view(observed) == opt_view(*write_lease_sha256));
            observed_write_lease = correlate_write_lease(
                write_lease_required,
                current_lease_sha256,
                observed,
                state.as_str(),
                &mut d,
            );
        },
        _ => {
            let ghost before = d@;
            let missing = missing_presence_disagreements(capabilities);
            let mut j: usize = 0;
            while j < missing.len()
                invariant
                    j <= missing@.len(),
                    disagreement_views(d@) == disagreement_views(before) + disagreement_views(
                        missing@.subrange(0, j as int),
                    ),
                decreases missing@.len() - j,
            {
                let ghost prev = d@;
                d.push(duplicate_disagreement(&missing[j]));
                proof {
                    assert(disagreement_views(d@) =~= disagreement_views(prev).push(d@.last()@));
                    assert(disagreement_views(missing@.subrange(0, j + 1)) =~= disagreement_views(
                        missing@.subrange(0, j as int),
                    ).push(missing@[j as int]@));
                    assert(disagreement_views(d@) =~= disagreement_views(before) + disagreement_views(
                        missing@.subrange(0, j + 1),
                    ));
                }
                j = j + 1;
            }
            assert(missing@.subrange(0, j as int) =~= missing@);
        },
    }
    (sort_disagreements_by_code(&d), observed_write_lease)
}
} // verus!
