//! Which runtime presence a correlation is built on: an arriving one, the
//! stored one, or none, and when an arriving presence replaces the stored
//! one. Authentication is done outside; its outcomes come in as facts.
use vstd::prelude::*;
use crate::text::str_eq;

verus! {

/// The presence stored for a target: its canonical bytes and the publisher
/// sequence they carry.
pub struct StoredPresenceFacts {
    pub canonical_bytes: Vec<u8>,
    pub publisher_sequence: u64,
}

/// An arriving presence: its canonical bytes, and the publisher sequence of
/// its claim once authenticated (`None` when it did not authenticate).
pub struct IncomingPresenceFacts {
    pub canonical_bytes: Vec<u8>,
    pub authenticated_sequence: Option<u64>,
}

/// The presence a correlation is built on.
#[derive(Clone, Copy, Debug, PartialEq, Eq, Structural)]
pub enum PresenceSelection {
    /// There is none.
    NoPresence,
    /// The stored presence, which no longer belongs to the current
    /// activation.
    StoredStale,
    /// The stored presence, authenticated against the current activation;
    /// it stays as it was stored.
    StoredCurrent,
    /// The arriving presence, which replaces the stored one.
    Admitted,
}

/// Why a presence was refused.
#[derive(Clone, Copy, Debug, PartialEq, Eq, Structural)]
pub enum PresenceRefusal {
    /// A presence arrived while there is no exact current activation and
    /// provider anchor.
    NoCurrentAuthority,
    /// The presence that had to be authenticated was not.
    NotAuthenticated,
    /// The arriving presence carries a lower publisher sequence than the
    /// stored one.
    SequenceReordered,
    /// The arriving presence reuses the stored publisher sequence with other
    /// bytes.
    SequenceReused,
    /// The stored presence, which the current correlation was built on, no
    /// longer authenticates.
    StoredPresenceRejected,
}

pub open spec fn stored_view(s: Option<StoredPresenceFacts>) -> Option<(Seq<u8>, u64)> {
    match s {
        Some(p) => Some((p.canonical_bytes@, p.publisher_sequence)),
        None => None,
    }
}

pub open spec fn incoming_view(i: Option<IncomingPresenceFacts>) -> Option<(Seq<u8>, Option<u64>)> {
    match i {
        Some(p) => Some((p.canonical_bytes@, p.authenticated_sequence)),
        None => None,
    }
}

/// The selection. Without a current authority an arriving presence is
/// refused and a stored one is stale. With one, an arriving presence equal
/// to the stored bytes is an exact retry and keeps the stored presence;
/// otherwise it must authenticate and carry a higher publisher sequence
/// than the stored one. With nothing arriving, the stored presence is
/// current if it authenticates, refused if the current correlation was
/// built on it, and stale otherwise.
pub open spec fn presence_selection(
    authority_current: bool,
    stored: Option<(Seq<u8>, u64)>,
    incoming: Option<(Seq<u8>, Option<u64>)>,
    stored_authenticates: bool,
    prior_correlation_current: bool,
) -> Result<PresenceSelection, PresenceRefusal> {
    if !authority_current {
        if incoming is Some {
            Err(PresenceRefusal::NoCurrentAuthority)
        } else if stored is Some {
            Ok(PresenceSelection::StoredStale)
        } else {
            Ok(PresenceSelection::NoPresence)
        }
    } else {
        match incoming {
            Some((bytes, sequence)) => {
                if stored matches Some((stored_bytes, _)) && stored_bytes == bytes {
                    if stored_authenticates {
                        Ok(PresenceSelection::StoredCurrent)
                    } else {
                        Err(PresenceRefusal::NotAuthenticated)
                    }
                } else {
                    match sequence {
                        None => Err(PresenceRefusal::NotAuthenticated),
                        Some(s) => match stored {
                            Some((_, t)) => if s < t {
                                Err(PresenceRefusal::SequenceReordered)
                            } else if s == t {
                                Err(PresenceRefusal::SequenceReused)
                            } else {
                                Ok(PresenceSelection::Admitted)
                            },
                            None => Ok(PresenceSelection::Admitted),
                        },
                    }
                }
            },
            None => match stored {
                None => Ok(PresenceSelection::NoPresence),
                Some(_) => if stored_authenticates {
                    Ok(PresenceSelection::StoredCurrent)
                } else if prior_correlation_current {
                    Err(PresenceRefusal::StoredPresenceRejected)
                } else {
                    Ok(PresenceSelection::StoredStale)
                },
            },
        }
    }
}

fn bytes_equal(a: &Vec<u8>, b: &Vec<u8>) -> (r: bool)
    ensures
        r == (a@ == b@),
{
    if a.len() != b.len() {
        return false;
    }
    let mut i: usize = 0;
    while i < a.len()
        invariant
            i <= a@.len() == b@.len(),
            forall|j: int| 0 <= j < i ==> a@[j] == b@[j],
        decreases a@.len() - i,
    {
        if a[i] != b[i] {
            return false;
        }
        i = i + 1;
    }
    assert(a@ =~= b@);
    true
}

/// Selects the presence a correlation is built on.
pub fn select_presence(
    authority_current: bool,
    stored: &Option<StoredPresenceFacts>,
    incoming: &Option<IncomingPresenceFacts>,
    stored_authenticates: bool,
    prior_correlation_current: bool,
) -> (r: Result<PresenceSelection, PresenceRefusal>)
    ensures
        r == presence_selection(
            authority_current,
            stored_view(*stored),
            incoming_view(*incoming),
            stored_authenticates,
            prior_correlation_current,
        ),
{
    if !authority_current {
        return if incoming.is_some() {
            Err(PresenceRefusal::NoCurrentAuthority)
        } else if stored.is_some() {
            Ok(PresenceSelection::StoredStale)
        } else {
            Ok(PresenceSelection::NoPresence)
        };
    }
    match incoming {
        Some(arriving) => {
            let exact_retry = match stored {
                Some(s) => bytes_equal(&s.canonical_bytes, &arriving.canonical_bytes),
                None => false,
            };
            if exact_retry {
                return if stored_authenticates {
                    Ok(PresenceSelection::StoredCurrent)
                } else {
                    Err(PresenceRefusal::NotAuthenticated)
                };
            }
            match arriving.authenticated_sequence {
                None => Err(PresenceRefusal::NotAuthenticated),
                Some(s) => match stored {
                    Some(p) => if s < p.publisher_sequence {
                        Err(PresenceRefusal::SequenceReordered)
                    } else if s == p.publisher_sequence {
                        Err(PresenceRefusal::SequenceReused)
                    } else {
                        Ok(PresenceSelection::Admitted)
                    },
                    None => Ok(PresenceSelection::Admitted),
                },
            }
        },
        None => match stored {
            None => Ok(PresenceSelection::NoPresence),
            Some(_) => if stored_authenticates {
                Ok(PresenceSelection::StoredCurrent)
            } else if prior_correlation_current {
                Err(PresenceRefusal::StoredPresenceRejected)
            } else {
                Ok(PresenceSelection::StoredStale)
            },
        },
    }
}

/// Admission is monotonic: an arriving presence replaces the stored one
/// only with a higher publisher sequence, and a lower or reused sequence
/// with other bytes is refused.
pub proof fn law_admission_is_monotonic(
    stored_bytes: Seq<u8>,
    stored_sequence: u64,
    bytes: Seq<u8>,
    sequence: u64,
    stored_authenticates: bool,
    prior_correlation_current: bool,
)
    requires
        bytes != stored_bytes,
    ensures
        ({
            let r = presence_selection(
                true,
                Some((stored_bytes, stored_sequence)),
                Some((bytes, Some(sequence))),
                stored_authenticates,
                prior_correlation_current,
            );
            &&& r == Ok::<PresenceSelection, PresenceRefusal>(PresenceSelection::Admitted) <==> sequence
                > stored_sequence
            &&& sequence < stored_sequence ==> r == Err::<PresenceSelection, PresenceRefusal>(
                PresenceRefusal::SequenceReordered,
            )
            &&& sequence == stored_sequence ==> r == Err::<PresenceSelection, PresenceRefusal>(
                PresenceRefusal::SequenceReused,
            )
        }),
{
}

/// An exact retry is idempotent: once a presence is admitted and stored,
/// the same bytes arriving again select the stored presence, which stays as
/// it was stored, as long as it still authenticates.
pub proof fn law_exact_retry_is_idempotent(
    prior: Option<(Seq<u8>, u64)>,
    bytes: Seq<u8>,
    sequence: u64,
    retried_sequence: Option<u64>,
    prior_authenticates: bool,
    prior_correlation_current: bool,
)
    requires
        presence_selection(
            true,
            prior,
            Some((bytes, Some(sequence))),
            prior_authenticates,
            prior_correlation_current,
        ) == Ok::<PresenceSelection, PresenceRefusal>(PresenceSelection::Admitted),
    ensures
        presence_selection(
            true,
            Some((bytes, sequence)),
            Some((bytes, retried_sequence)),
            true,
            prior_correlation_current,
        ) == Ok::<PresenceSelection, PresenceRefusal>(PresenceSelection::StoredCurrent),
{
}

/// What a stored presence claims about whom it was issued for.
pub struct PresenceClaim {
    pub signer_identity_id: String,
    pub expected_projection_sha256: String,
    pub activation_witness_sha256: String,
    pub runtime_instance_id: String,
}

/// What Idunn's current projection of the target says.
pub struct ProjectionIdentity {
    pub expected_signer_identity_id: String,
    pub expected_sha256: String,
    pub activation_sha256: Option<String>,
    pub runtime_instance_id: Option<String>,
}

/// A stored presence is shown in a snapshot only while it belongs to the
/// current projection: its signer, Expected digest, activation witness and
/// runtime instance all those of the projection.
pub open spec fn presence_is_current(p: PresenceClaim, q: ProjectionIdentity) -> bool {
    &&& q.expected_signer_identity_id@ == p.signer_identity_id@
    &&& q.expected_sha256@ == p.expected_projection_sha256@
    &&& q.activation_sha256 matches Some(a) && a@ == p.activation_witness_sha256@
    &&& q.runtime_instance_id matches Some(r) && r@ == p.runtime_instance_id@
}

/// Whether a stored presence belongs to the current projection.
pub fn presence_matches_projection(presence: &PresenceClaim, projection: &ProjectionIdentity) -> (r:
    bool)
    ensures
        r == presence_is_current(*presence, *projection),
{
    if !str_eq(
        projection.expected_signer_identity_id.as_str(),
        presence.signer_identity_id.as_str(),
    ) || !str_eq(projection.expected_sha256.as_str(), presence.expected_projection_sha256.as_str()) {
        return false;
    }
    let activation_ok = match &projection.activation_sha256 {
        Some(a) => str_eq(a.as_str(), presence.activation_witness_sha256.as_str()),
        None => false,
    };
    let instance_ok = match &projection.runtime_instance_id {
        Some(r) => str_eq(r.as_str(), presence.runtime_instance_id.as_str()),
        None => false,
    };
    activation_ok && instance_ok
}

} // verus!
