//! Domain-ownership verification engine.
//!
//! A user-supplied domain enters `Pending` and becomes `Active` exactly when
//! DNS evidence shows it points at the platform: either a CNAME answer for
//! the domain targets the fallback domain, or the domain resolves to the
//! same non-empty set of addresses as the fallback domain.  (Two domains
//! that both resolve to no addresses are *not* treated as pointing at the
//! platform, although the bare address sets are equal.)  `Internal` domains
//! never transition, and a check on an `Active` domain is a no-op, not an
//! error.  On a successful transition exactly one custom-hostname
//! provisioning action is emitted for the process embedding this crate to
//! send to the CDN provider.

use vstd::prelude::*;
use vstd::string::StrSliceExecFns;

use crate::cloudflare::{DnsLookupResponse, DnsLookupResponseAnswerV, DnsLookupResponseV, RR_TYPE_CNAME};
use crate::errors::{Code, Status};
use crate::model::{str_eq, Domain, DomainAsRel, DomainStatus, Website};
use crate::store::{Store, StoreV};

verus! {

/// The host component that URI parsing extracts from a string, when the
/// string parses as a URI with a host.
pub uninterp spec fn uri_host_of(s: Seq<char>) -> Option<Seq<char>>;

/// Relies on http's URI parser: parsing a string and reading its host
/// component is a function of the string alone.
#[verifier::external_body]
fn parse_uri_host(input: &str) -> (r: Option<String>)
    ensures
        match r {
            Some(h) => uri_host_of(input@) == Some(h@),
            None => uri_host_of(input@) is None,
        },
{
    input.parse::<http::Uri>().ok().and_then(|u| u.host().map(|h| h.to_owned()))
}

/// Whether a string contains a character.
pub fn str_contains_char(s: &str, c: char) -> (r: bool)
    ensures
        r == s@.contains(c),
{
    let n = s.unicode_len();
    let mut i: usize = 0;
    while i < n
        invariant
            n == s@.len(),
            i <= n,
            forall|j: int| 0 <= j < i ==> s@[j] != c,
        decreases n - i,
    {
        if s.get_char(i) == c {
            proof {
                assert(s@[i as int] == c);
            }
            return true;
        }
        i += 1;
    }
    proof {
        assert(!s@.contains(c)) by {
            if s@.contains(c) {
                let j = choose|j: int| 0 <= j < s@.len() && s@[j] == c;
                assert(s@[j] != c);
            }
        }
    }
    false
}

/// A valid candidate domain: it contains a dot, and parsing it as a URI and
/// re-extracting the host reproduces the string exactly (so it carries no
/// scheme, path or port).
pub open spec fn spec_valid_domain(s: Seq<char>) -> bool {
    s.contains('.') && uri_host_of(s) == Some(s)
}

/// The answer records of a lookup; a missing answer section is empty.
pub open spec fn spec_answers(l: DnsLookupResponseV) -> Seq<DnsLookupResponseAnswerV> {
    match l.answer {
        Some(a) => a,
        None => Seq::empty(),
    }
}

/// Whether some answer resolves to this address.
pub open spec fn spec_has_data(l: DnsLookupResponseV, d: Seq<char>) -> bool {
    exists|i: int| 0 <= i < spec_answers(l).len() && (#[trigger] spec_answers(l)[i]).data == d
}

/// The set of addresses a lookup resolves to.
pub open spec fn spec_addr_set(l: DnsLookupResponseV) -> Set<Seq<char>> {
    Set::new(|d: Seq<char>| spec_has_data(l, d))
}

/// Whether the lookup has a CNAME answer for `domain` whose target is
/// `fallback`.
pub open spec fn spec_has_cname_to(
    domain: Seq<char>,
    fallback: Seq<char>,
    l: DnsLookupResponseV,
) -> bool {
    exists|i: int|
        {
            &&& 0 <= i < spec_answers(l).len()
            &&& (#[trigger] spec_answers(l)[i]).name == domain
            &&& spec_answers(l)[i].rr_type == RR_TYPE_CNAME
            &&& spec_answers(l)[i].data == fallback
        }
}

/// The verification predicate: the candidate points at the platform when it
/// has a CNAME answer targeting the fallback domain, or when it resolves to
/// the same non-empty address set as the fallback domain.  Two empty address
/// sets are equal but count as "not yet verified".
pub open spec fn spec_points_to_platform(
    domain: Seq<char>,
    fallback: Seq<char>,
    domain_lookup: DnsLookupResponseV,
    fallback_lookup: DnsLookupResponseV,
) -> bool {
    ||| spec_has_cname_to(domain, fallback, domain_lookup)
    ||| (spec_addr_set(domain_lookup) == spec_addr_set(fallback_lookup) && spec_answers(
        domain_lookup,
    ).len() > 0)
}

/// The state transition of one verification check: `Pending` becomes
/// `Active` exactly when the candidate points at the platform, and only that
/// transition emits a provisioning action; every other state is left alone.
pub open spec fn spec_next_status(current: DomainStatus, pointed: bool) -> (DomainStatus, bool) {
    match current {
        DomainStatus::Pending => if pointed {
            (DomainStatus::Active, true)
        } else {
            (DomainStatus::Pending, false)
        },
        s => (s, false),
    }
}

/// The domain state machine: `Internal` domains never transition, `Pending`
/// domains transition to `Active` exactly when the verification predicate
/// holds, a transition out of `Active` never happens (a second check is a
/// no-op, not an error), and provisioning is emitted exactly on the
/// `Pending -> Active` edge.
pub proof fn lemma_domain_state_machine(pointed: bool)
    ensures
        spec_next_status(DomainStatus::Internal, pointed) == (DomainStatus::Internal, false),
        spec_next_status(DomainStatus::Pending, pointed).0 == DomainStatus::Active <==> pointed,
        spec_next_status(DomainStatus::Pending, pointed).1 <==> pointed,
        spec_next_status(DomainStatus::Active, pointed) == (DomainStatus::Active, false),
        spec_next_status(DomainStatus::Unspecified, pointed) == (DomainStatus::Unspecified, false),
{
}

/// A domain as serialized on responses.
#[derive(Clone, Debug)]
pub struct DomainResponse {
    pub domain_id: i64,
    pub domain: String,
    pub status: DomainStatus,
}

/// The outcome of one verification check: the domain row after the check,
/// and the hostname to provision at the CDN provider when the check
/// activated the domain — emitted exactly once per successful check.
#[derive(Debug)]
pub struct CheckDomainStatusOutcome {
    pub domain: Domain,
    pub provision_hostname: Option<String>,
}

/// The verification engine; it owns the platform's fallback domain, the
/// target every customer domain must point at.
pub struct DomainService {
    pub fallback_domain: String,
}

impl DomainService {
    /// Builds the engine around the platform's fallback domain.
    pub fn build(fallback_domain: String) -> (r: DomainService)
        ensures
            r.fallback_domain == fallback_domain,
    {
        DomainService { fallback_domain }
    }

    /// The response form of a domain child row; `None` exactly when the
    /// stored status string is not a known status name.
    pub fn to_response(domain: &DomainAsRel) -> (r: Option<DomainResponse>)
        ensures
            match r {
                Some(resp) => {
                    &&& resp.domain_id == domain.domain_id
                    &&& resp.domain@ == domain.domain@
                    &&& domain.status@ == crate::model::spec_domain_status_name(resp.status)
                },
                None => forall|s: DomainStatus|
                    domain.status@ != crate::model::spec_domain_status_name(s),
            },
    {
        match DomainStatus::from_str_name(domain.status.as_str()) {
            Some(status) => Some(
                DomainResponse {
                    domain_id: domain.domain_id,
                    domain: domain.domain.clone(),
                    status,
                },
            ),
            None => None,
        }
    }

    /// Validates a candidate domain name: it must contain a dot and must be
    /// exactly a host (parsing it as a URI and re-extracting the host
    /// reproduces the input); anything else is rejected with
    /// `InvalidArgument`.
    pub fn validate_domain(input: &str) -> (r: Result<(), Status>)
        ensures
            match r {
                Ok(()) => spec_valid_domain(input@),
                Err(st) => {
                    &&& !spec_valid_domain(input@)
                    &&& st.code == Code::InvalidArgument
                    &&& st.message@ == (if !input@.contains('.') {
                        "Domain must contain a dot ('.')"@
                    } else {
                        "Domain is not valid"@
                    })
                },
            },
    {
        if !str_contains_char(input, '.') {
            return Err(Status::invalid_argument("Domain must contain a dot ('.')"));
        }
        match parse_uri_host(input) {
            Some(host) => {
                if str_eq(host.as_str(), input) {
                    Ok(())
                } else {
                    Err(Status::invalid_argument("Domain is not valid"))
                }
            },
            None => Err(Status::invalid_argument("Domain is not valid")),
        }
    }

    /// Whether the lookup carries a CNAME answer for `domain` targeting the
    /// platform's fallback domain.
    pub fn has_cname_to_fallback(&self, domain: &str, lookup: &DnsLookupResponse) -> (r: bool)
        ensures
            r == spec_has_cname_to(domain@, self.fallback_domain@, lookup@),
    {
        match &lookup.answer {
            None => {
                proof {
                    assert(spec_answers(lookup@).len() == 0);
                }
                false
            },
            Some(answers) => {
                let n = answers.len();
                let mut i: usize = 0;
                while i < n
                    invariant
                        n == answers@.len(),
                        i <= n,
                        spec_answers(lookup@) == answers.deep_view(),
                        forall|j: int|
                            0 <= j < i ==> !((#[trigger] spec_answers(lookup@)[j]).name == domain@
                                && spec_answers(lookup@)[j].rr_type == RR_TYPE_CNAME && spec_answers(
                                lookup@,
                            )[j].data == self.fallback_domain@),
                    decreases n - i,
                {
                    let a = &answers[i];
                    if a.rr_type == RR_TYPE_CNAME && str_eq(a.name.as_str(), domain) && str_eq(
                        a.data.as_str(),
                        self.fallback_domain.as_str(),
                    ) {
                        proof {
                            assert(spec_answers(lookup@)[i as int] == a@);
                        }
                        return true;
                    }
                    proof {
                        assert(spec_answers(lookup@)[i as int] == a@);
                    }
                    i += 1;
                }
                false
            },
        }
    }

    /// Whether the address set of `a` contains every address of `x`'s
    /// answers up to nothing; helper over the answers of one lookup.
    fn data_subset(x: &DnsLookupResponse, y: &DnsLookupResponse) -> (r: bool)
        ensures
            r == forall|d: Seq<char>| spec_has_data(x@, d) ==> spec_has_data(y@, d),
    {
        let xs: &Vec<crate::cloudflare::DnsLookupResponseAnswer> = match &x.answer {
            Some(v) => v,
            None => {
                proof {
                    assert(spec_answers(x@).len() == 0);
                    assert(forall|d: Seq<char>| !spec_has_data(x@, d));
                }
                return true;
            },
        };
        let n = xs.len();
        let mut i: usize = 0;
        while i < n
            invariant
                n == xs@.len(),
                i <= n,
                spec_answers(x@) == xs.deep_view(),
                forall|j: int|
                    0 <= j < i ==> spec_has_data(y@, (#[trigger] spec_answers(x@)[j]).data),
            decreases n - i,
        {
            let d = &xs[i].data;
            proof {
                assert(spec_answers(x@)[i as int] == xs@[i as int]@);
            }
            let mut found = false;
            match &y.answer {
                None => {
                    proof {
                        assert(spec_answers(y@).len() == 0);
                    }
                },
                Some(ys) => {
                    let m = ys.len();
                    let mut k: usize = 0;
                    while k < m
                        invariant
                            m == ys@.len(),
                            k <= m,
                            spec_answers(y@) == ys.deep_view(),
                            !found ==> forall|j: int|
                                0 <= j < k ==> (#[trigger] spec_answers(y@)[j]).data != d@,
                            found ==> spec_has_data(y@, d@),
                        decreases m - k,
                    {
                        if str_eq(ys[k].data.as_str(), d.as_str()) {
                            proof {
                                assert(spec_answers(y@)[k as int] == ys@[k as int]@);
                                assert(spec_answers(y@)[k as int].data == d@);
                            }
                            found = true;
                        }
                        k += 1;
                    }
                },
            }
            if !found {
                proof {
                    assert(spec_has_data(x@, d@));
                    assert(!spec_has_data(y@, d@));
                }
                return false;
            }
            i += 1;
        }
        proof {
            assert forall|d: Seq<char>| spec_has_data(x@, d) implies spec_has_data(y@, d) by {
                let j = choose|j: int|
                    0 <= j < spec_answers(x@).len() && (#[trigger] spec_answers(x@)[j]).data == d;
                assert(spec_has_data(y@, spec_answers(x@)[j].data));
            }
        }
        true
    }

    /// Whether two lookups resolve to the same set of addresses.  Address
    /// sets are compared as sets: symmetric, order-independent and
    /// duplicate-free; two empty answer sections compare equal.
    pub fn has_same_destination_ips(&self, a: &DnsLookupResponse, b: &DnsLookupResponse) -> (r:
        bool)
        ensures
            r == (spec_addr_set(a@) == spec_addr_set(b@)),
    {
        let ab = Self::data_subset(a, b);
        let ba = Self::data_subset(b, a);
        if ab && ba {
            proof {
                assert(spec_addr_set(a@) =~= spec_addr_set(b@));
            }
            true
        } else {
            proof {
                if spec_addr_set(a@) == spec_addr_set(b@) {
                    assert forall|d: Seq<char>| spec_has_data(a@, d) implies spec_has_data(
                        b@,
                        d,
                    ) by {
                        assert(spec_addr_set(a@).contains(d));
                        assert(spec_addr_set(b@).contains(d));
                    }
                    assert forall|d: Seq<char>| spec_has_data(b@, d) implies spec_has_data(
                        a@,
                        d,
                    ) by {
                        assert(spec_addr_set(b@).contains(d));
                        assert(spec_addr_set(a@).contains(d));
                    }
                }
            }
            false
        }
    }

    /// Whether the candidate domain points at the platform, given its own
    /// lookup and the fallback domain's lookup.
    pub fn points_to_platform(
        &self,
        domain: &str,
        domain_lookup: &DnsLookupResponse,
        fallback_lookup: &DnsLookupResponse,
    ) -> (r: bool)
        ensures
            r == spec_points_to_platform(
                domain@,
                self.fallback_domain@,
                domain_lookup@,
                fallback_lookup@,
            ),
    {
        if self.has_cname_to_fallback(domain, domain_lookup) {
            return true;
        }
        let nonempty = match &domain_lookup.answer {
            Some(v) => v.len() > 0,
            None => false,
        };
        proof {
            assert(nonempty == (spec_answers(domain_lookup@).len() > 0));
        }
        nonempty && self.has_same_destination_ips(domain_lookup, fallback_lookup)
    }

    /// Admits a candidate domain for a website the user owns: the name must
    /// be valid, the website must exist and belong to the user, and the name
    /// must not be `Active` anywhere — a name in active use is rejected as
    /// already existing.  The new row starts `Pending`.
    pub fn create_domain(
        &self,
        store: &mut Store,
        user_id: &str,
        website_id: &str,
        domain: &str,
    ) -> (r: Result<Domain, Status>)
        requires
            old(store)@.wf(),
        ensures
            final(store)@.wf(),
            match r {
                Ok(d) => {
                    &&& spec_valid_domain(domain@)
                    &&& old(store)@.has_website_for_user(website_id@, user_id@)
                    &&& !old(store)@.has_domain_with_status(domain@, DomainStatus::Active)
                    &&& d@ == (crate::model::DomainV {
                        domain_id: old(store)@.next_domain_id,
                        website_id: website_id@,
                        user_id: user_id@,
                        created_at: old(store)@.now,
                        updated_at: old(store)@.now,
                        domain: domain@,
                        status: DomainStatus::Pending,
                    })
                    &&& final(store)@ == (StoreV {
                        domains: old(store)@.domains.push(d@),
                        next_domain_id: (old(store)@.next_domain_id + 1) as i64,
                        ..old(store)@
                    })
                },
                Err(st) => {
                    &&& *final(store) == *old(store)
                    &&& match st.code {
                        Code::InvalidArgument => !spec_valid_domain(domain@),
                        Code::NotFound => spec_valid_domain(domain@) && !old(
                            store,
                        )@.has_website_for_user(website_id@, user_id@),
                        Code::AlreadyExists => spec_valid_domain(domain@) && old(
                            store,
                        )@.has_website_for_user(website_id@, user_id@) && old(
                            store,
                        )@.has_domain_with_status(domain@, DomainStatus::Active),
                        Code::Internal => spec_valid_domain(domain@) && old(
                            store,
                        )@.has_website_for_user(website_id@, user_id@) && !old(
                            store,
                        )@.has_domain_with_status(domain@, DomainStatus::Active) && old(
                            store,
                        )@.next_domain_id == i64::MAX,
                        _ => false,
                    }
                },
            },
    {
        if let Err(st) = Self::validate_domain(domain) {
            return Err(st);
        }
        if Website::get_for_user(store, website_id, user_id).is_none() {
            return Err(Status::not_found("Could not find website by website_id"));
        }
        if Domain::get_by_domain_and_status(store, domain, DomainStatus::Active).is_some() {
            return Err(Status::already_exists("Domain is already in use"));
        }
        proof {
            let i = choose|i: int|
                0 <= i < store@.websites.len() && (#[trigger] store@.websites[i]).website_id
                    == website_id@ && store@.websites[i].user_id == user_id@;
            assert(store@.has_website(website_id@));
        }
        match Domain::create(store, website_id, user_id, domain, DomainStatus::Pending) {
            Ok(d) => Ok(d),
            Err(e) => {
                proof {
                    // the website exists and the row enters `Pending`, so the
                    // only storage failure left is an exhausted id sequence
                    assert(e matches crate::errors::DbError::Database(
                        crate::errors::SqlState::Other,
                        _,
                    ));
                }
                Err(Status::from_db_error(e))
            },
        }
    }

    /// Runs one verification check on a domain the user owns, against the
    /// candidate's and the fallback domain's DNS lookups.  `Pending` domains
    /// become `Active` exactly when the verification predicate holds, and
    /// exactly one provisioning action is emitted per successful check; any
    /// other status is returned unchanged — DNS not yet pointing here is an
    /// expected, retryable outcome, not a fault.
    pub fn check_domain_status(
        &self,
        store: &mut Store,
        user_id: &str,
        domain_id: i64,
        domain_lookup: &DnsLookupResponse,
        fallback_lookup: &DnsLookupResponse,
    ) -> (r: Result<CheckDomainStatusOutcome, Status>)
        requires
            old(store)@.wf(),
        ensures
            final(store)@.wf(),
            match r {
                Ok(out) => exists|i: int|
                    {
                        let row = #[trigger] old(store)@.domains[i];
                        let pointed = spec_points_to_platform(
                            row.domain,
                            self.fallback_domain@,
                            domain_lookup@,
                            fallback_lookup@,
                        );
                        let next = spec_next_status(row.status, pointed);
                        &&& 0 <= i < old(store)@.domains.len()
                        &&& row.domain_id == domain_id
                        &&& row.user_id == user_id@
                        &&& (out.provision_hostname is Some <==> next.1)
                        &&& (out.provision_hostname matches Some(h) ==> h@ == row.domain)
                        &&& if next.0 == row.status {
                            out.domain@ == row && *final(store) == *old(store)
                        } else {
                            out.domain@ == (crate::model::DomainV {
                                status: next.0,
                                updated_at: old(store)@.now,
                                ..row
                            }) && final(store)@ == (StoreV {
                                domains: old(store)@.domains.update(i, out.domain@),
                                ..old(store)@
                            })
                        }
                    },
                Err(st) => {
                    &&& *final(store) == *old(store)
                    &&& match st.code {
                        Code::NotFound => forall|i: int|
                            0 <= i < old(store)@.domains.len() ==> !((
                            #[trigger] old(store)@.domains[i]).domain_id == domain_id && old(
                                store,
                            )@.domains[i].user_id == user_id@),
                        Code::AlreadyExists => exists|i: int, k: int|
                            {
                                &&& 0 <= i < old(store)@.domains.len()
                                &&& 0 <= k < old(store)@.domains.len()
                                &&& k != i
                                &&& (#[trigger] old(store)@.domains[i]).domain_id == domain_id
                                &&& old(store)@.domains[i].user_id == user_id@
                                &&& old(store)@.domains[i].status == DomainStatus::Pending
                                &&& spec_points_to_platform(
                                    old(store)@.domains[i].domain,
                                    self.fallback_domain@,
                                    domain_lookup@,
                                    fallback_lookup@,
                                )
                                &&& (#[trigger] old(store)@.domains[k]).status
                                    == DomainStatus::Active
                                &&& old(store)@.domains[k].domain == old(store)@.domains[i].domain
                            },
                        _ => false,
                    }
                },
            },
    {
        let found = match Domain::get_for_user(store, domain_id, user_id) {
            Some(d) => d,
            None => {
                return Err(Status::not_found("Could not find domain"));
            },
        };
        let ghost s0 = store@;
        proof {
            assert(s0.domains.contains(found@));
        }
        let is_pending = match found.status {
            DomainStatus::Pending => true,
            _ => false,
        };
        if !is_pending {
            proof {
                let i = choose|i: int| 0 <= i < s0.domains.len() && s0.domains[i] == found@;
                assert(s0.domains[i].domain_id == domain_id && s0.domains[i].user_id == user_id@);
                assert(spec_next_status(s0.domains[i].status, spec_points_to_platform(
                    s0.domains[i].domain,
                    self.fallback_domain@,
                    domain_lookup@,
                    fallback_lookup@,
                )).0 == s0.domains[i].status);
            }
            return Ok(CheckDomainStatusOutcome { domain: found, provision_hostname: None });
        }
        let pointed = self.points_to_platform(found.domain.as_str(), domain_lookup, fallback_lookup);
        if !pointed {
            proof {
                let i = choose|i: int| 0 <= i < s0.domains.len() && s0.domains[i] == found@;
                assert(s0.domains[i].domain_id == domain_id && s0.domains[i].user_id == user_id@);
            }
            return Ok(CheckDomainStatusOutcome { domain: found, provision_hostname: None });
        }
        let hostname = found.domain.clone();
        match Domain::update(
            store,
            found.domain_id,
            found.website_id.as_str(),
            found.user_id.as_str(),
            DomainStatus::Active,
        ) {
            Ok(updated) => {
                proof {
                    let i = choose|i: int| 0 <= i < s0.domains.len() && s0.domains[i] == found@;
                    let j = choose|j: int|
                        {
                            &&& 0 <= j < s0.domains.len()
                            &&& (#[trigger] s0.domains[j]).domain_id == found@.domain_id
                            &&& s0.domains[j].website_id == found@.website_id
                            &&& s0.domains[j].user_id == found@.user_id
                            &&& updated@ == (crate::model::DomainV {
                                status: DomainStatus::Active,
                                updated_at: s0.now,
                                ..s0.domains[j]
                            })
                            &&& store@ == (StoreV {
                                domains: s0.domains.update(j, updated@),
                                ..s0
                            })
                        };
                    crate::store::lemma_domain_ids_unique(s0, i, j);
                    assert(s0.domains[i].domain_id == domain_id && s0.domains[i].user_id
                        == user_id@);
                }
                Ok(
                    CheckDomainStatusOutcome {
                        domain: updated,
                        provision_hostname: Some(hostname),
                    },
                )
            },
            Err(e) => {
                proof {
                    let i = choose|i: int| 0 <= i < s0.domains.len() && s0.domains[i] == found@;
                    if e is NotFound {
                        assert(!((s0.domains[i]).domain_id == found@.domain_id
                            && s0.domains[i].website_id == found@.website_id
                            && s0.domains[i].user_id == found@.user_id));
                        assert(false);
                    }
                    // the activation hit the unique constraint on active
                    // names: another active row carries this domain's name
                    let (i2, k) = choose|i2: int, k: int|
                        {
                            &&& 0 <= i2 < s0.domains.len()
                            &&& 0 <= k < s0.domains.len()
                            &&& k != i2
                            &&& (#[trigger] s0.domains[i2]).domain_id == found@.domain_id
                            &&& s0.domains[i2].website_id == found@.website_id
                            &&& s0.domains[i2].user_id == found@.user_id
                            &&& (#[trigger] s0.domains[k]).status == DomainStatus::Active
                            &&& s0.domains[k].domain == s0.domains[i2].domain
                        };
                    crate::store::lemma_domain_ids_unique(s0, i, i2);
                    assert(s0.domains[i].domain_id == domain_id && s0.domains[i].user_id
                        == user_id@ && s0.domains[i].status == DomainStatus::Pending);
                    assert(s0.domains[k].domain == s0.domains[i].domain);
                }
                Err(Status::from_db_error(e))
            },
        }
    }

    /// Removes a domain the user owns.  `Internal` domains — the platform's
    /// own subdomain — can never be deleted through this path; the removed
    /// row is returned so its custom hostnames can be cleaned up at the CDN
    /// provider.
    pub fn delete_domain(&self, store: &mut Store, user_id: &str, domain_id: i64) -> (r: Result<
        Domain,
        Status,
    >)
        requires
            old(store)@.wf(),
        ensures
            final(store)@.wf(),
            match r {
                Ok(d) => exists|i: int|
                    {
                        &&& 0 <= i < old(store)@.domains.len()
                        &&& (#[trigger] old(store)@.domains[i]) == d@
                        &&& d@.domain_id == domain_id
                        &&& d@.user_id == user_id@
                        &&& d@.status != DomainStatus::Internal
                        &&& final(store)@ == (StoreV {
                            domains: old(store)@.domains.remove(i),
                            ..old(store)@
                        })
                    },
                Err(st) => {
                    &&& *final(store) == *old(store)
                    &&& match st.code {
                        Code::NotFound => forall|i: int|
                            0 <= i < old(store)@.domains.len() ==> !((
                            #[trigger] old(store)@.domains[i]).domain_id == domain_id && old(
                                store,
                            )@.domains[i].user_id == user_id@),
                        Code::InvalidArgument => exists|i: int|
                            0 <= i < old(store)@.domains.len() && (#[trigger] old(
                                store,
                            )@.domains[i]).domain_id == domain_id && old(store)@.domains[i].user_id
                                == user_id@ && old(store)@.domains[i].status
                                == DomainStatus::Internal,
                        _ => false,
                    }
                },
            },
    {
        let found = match Domain::get_for_user(store, domain_id, user_id) {
            Some(d) => d,
            None => {
                return Err(Status::not_found("Could not find domain"));
            },
        };
        let ghost s0 = store@;
        let is_internal = match found.status {
            DomainStatus::Internal => true,
            _ => false,
        };
        if is_internal {
            proof {
                assert(s0.domains.contains(found@));
                let i = choose|i: int| 0 <= i < s0.domains.len() && s0.domains[i] == found@;
                assert(s0.domains[i].domain_id == domain_id && s0.domains[i].user_id == user_id@
                    && s0.domains[i].status == DomainStatus::Internal);
            }
            return Err(Status::invalid_argument("Could not find domain"));
        }
        match Domain::delete(store, found.domain_id, found.website_id.as_str(), user_id) {
            Ok(()) => {
                proof {
                    assert(s0.domains.contains(found@));
                    let i = choose|i: int| 0 <= i < s0.domains.len() && s0.domains[i] == found@;
                    let j = choose|j: int|
                        {
                            &&& 0 <= j < s0.domains.len()
                            &&& (#[trigger] s0.domains[j]).domain_id == found@.domain_id
                            &&& s0.domains[j].website_id == found@.website_id
                            &&& s0.domains[j].user_id == user_id@
                            &&& store@ == (StoreV { domains: s0.domains.remove(j), ..s0 })
                        };
                    crate::store::lemma_domain_ids_unique(s0, i, j);
                }
                Ok(found)
            },
            Err(e) => {
                proof {
                    assert(s0.domains.contains(found@));
                    let i = choose|i: int| 0 <= i < s0.domains.len() && s0.domains[i] == found@;
                    assert(!((s0.domains[i]).domain_id == found@.domain_id
                        && s0.domains[i].website_id == found@.website_id && s0.domains[i].user_id
                        == user_id@));
                    assert(false);
                }
                Err(Status::from_db_error(e))
            },
        }
    }
}

} // verus!