//! Periodic verification sweep.
//!
//! Once a minute the embedding process lists every `Pending` domain, fetches
//! the DNS lookups for each and for the fallback domain, and hands the
//! results here.  Each domain is put through the same transition rule as the
//! synchronous check; one domain's failure does not stop the sweep.  The
//! returned hostnames are the provisioning actions to send to the CDN
//! provider, one per domain the sweep activated.

use vstd::prelude::*;

use crate::cloudflare::{DnsLookupResponse, DnsLookupResponseV};
use crate::domains::{spec_next_status, spec_points_to_platform, DomainService};
use crate::errors::Code;
use crate::model::{DomainStatus, DomainV};
use crate::store::{Store, StoreV};

verus! {

/// The lookups gathered for one pending domain before a sweep.
pub struct SweepEntry {
    pub domain_id: i64,
    pub user_id: String,
    pub domain_lookup: DnsLookupResponse,
    pub fallback_lookup: DnsLookupResponse,
}

/// Mathematical view of [`SweepEntry`].
pub struct SweepEntryV {
    pub domain_id: i64,
    pub user_id: Seq<char>,
    pub domain_lookup: DnsLookupResponseV,
    pub fallback_lookup: DnsLookupResponseV,
}

impl View for SweepEntry {
    type V = SweepEntryV;

    open spec fn view(&self) -> SweepEntryV {
        SweepEntryV {
            domain_id: self.domain_id,
            user_id: self.user_id@,
            domain_lookup: self.domain_lookup@,
            fallback_lookup: self.fallback_lookup@,
        }
    }
}

impl DeepView for SweepEntry {
    type V = SweepEntryV;

    open spec fn deep_view(&self) -> SweepEntryV {
        self.view()
    }
}

/// One sweep step: the store after putting one entry through the transition
/// rule, and the provisioning action it emitted, if any.  The entry's domain
/// transitions — and emits exactly one action, its name — when its row
/// exists, is `Pending`, points at the platform, and no other row holds its
/// name `Active`; in every other case, a missing row and a lookup that does
/// not verify included, the store is left alone and no action is emitted.
pub open spec fn spec_sweep_step(fallback: Seq<char>, s: StoreV, e: SweepEntryV) -> (
    StoreV,
    Option<Seq<char>>,
) {
    if exists|i: int|
        0 <= i < s.domains.len() && (#[trigger] s.domains[i]).domain_id == e.domain_id
            && s.domains[i].user_id == e.user_id {
        let i = choose|i: int|
            0 <= i < s.domains.len() && (#[trigger] s.domains[i]).domain_id == e.domain_id
                && s.domains[i].user_id == e.user_id;
        let row = s.domains[i];
        let pointed = spec_points_to_platform(
            row.domain,
            fallback,
            e.domain_lookup,
            e.fallback_lookup,
        );
        if row.status == DomainStatus::Pending && pointed && !(exists|k: int|
            0 <= k < s.domains.len() && k != i && (#[trigger] s.domains[k]).status
                == DomainStatus::Active && s.domains[k].domain == row.domain) {
            (
                StoreV {
                    domains: s.domains.update(
                        i,
                        DomainV { status: DomainStatus::Active, updated_at: s.now, ..row },
                    ),
                    ..s
                },
                Some(row.domain),
            )
        } else {
            (s, None)
        }
    } else {
        (s, None)
    }
}

/// The store and the provisioning actions after sweeping the entries in
/// order, each through [`spec_sweep_step`].
pub open spec fn spec_sweep(fallback: Seq<char>, s: StoreV, entries: Seq<SweepEntryV>) -> (
    StoreV,
    Seq<Seq<char>>,
)
    decreases entries.len(),
{
    if entries.len() == 0 {
        (s, Seq::empty())
    } else {
        let prev = spec_sweep(fallback, s, entries.drop_last());
        let step = spec_sweep_step(fallback, prev.0, entries.last());
        (
            step.0,
            match step.1 {
                Some(h) => prev.1.push(h),
                None => prev.1,
            },
        )
    }
}

/// The sweep step on an entry whose row transitioned: the activating case.
proof fn lemma_step_activates(
    fallback: Seq<char>,
    s: StoreV,
    e: SweepEntryV,
    sf: StoreV,
    hostname: Seq<char>,
    i: int,
)
    requires
        s.wf(),
        sf.wf(),
        0 <= i < s.domains.len(),
        s.domains[i].domain_id == e.domain_id,
        s.domains[i].user_id == e.user_id,
        s.domains[i].status == DomainStatus::Pending,
        spec_points_to_platform(s.domains[i].domain, fallback, e.domain_lookup, e.fallback_lookup),
        hostname == s.domains[i].domain,
        sf == (StoreV {
            domains: s.domains.update(
                i,
                DomainV { status: DomainStatus::Active, updated_at: s.now, ..s.domains[i] },
            ),
            ..s
        }),
    ensures
        spec_sweep_step(fallback, s, e) == (sf, Some(hostname)),
{
    let ic = choose|ic: int|
        0 <= ic < s.domains.len() && (#[trigger] s.domains[ic]).domain_id == e.domain_id
            && s.domains[ic].user_id == e.user_id;
    crate::store::lemma_domain_ids_unique(s, i, ic);
    let row = s.domains[i];
    // no other active row holds the name, else the activated store would
    // break the unique constraint on active names
    assert forall|k: int|
        0 <= k < s.domains.len() && k != i implies !((#[trigger] s.domains[k]).status
        == DomainStatus::Active && s.domains[k].domain == row.domain) by {
        if s.domains[k].status == DomainStatus::Active && s.domains[k].domain == row.domain {
            assert(sf.domains[k] == s.domains[k]);
            assert(sf.domains[i].status == DomainStatus::Active);
            assert(sf.domains[i].domain == row.domain);
            assert(false);
        }
    }
}

/// The sweep step on an entry whose row did not transition: it stayed in a
/// state the rule does not advance.
proof fn lemma_step_stays(fallback: Seq<char>, s: StoreV, e: SweepEntryV, i: int)
    requires
        s.wf(),
        0 <= i < s.domains.len(),
        s.domains[i].domain_id == e.domain_id,
        s.domains[i].user_id == e.user_id,
        spec_next_status(
            s.domains[i].status,
            spec_points_to_platform(
                s.domains[i].domain,
                fallback,
                e.domain_lookup,
                e.fallback_lookup,
            ),
        ).0 == s.domains[i].status,
    ensures
        spec_sweep_step(fallback, s, e) == (s, None::<Seq<char>>),
{
    let ic = choose|ic: int|
        0 <= ic < s.domains.len() && (#[trigger] s.domains[ic]).domain_id == e.domain_id
            && s.domains[ic].user_id == e.user_id;
    crate::store::lemma_domain_ids_unique(s, i, ic);
}

/// The sweep step on an entry whose activation would collide with another
/// active row of the same name: the entry is skipped.
proof fn lemma_step_collides(fallback: Seq<char>, s: StoreV, e: SweepEntryV, i: int, k: int)
    requires
        s.wf(),
        0 <= i < s.domains.len(),
        0 <= k < s.domains.len(),
        k != i,
        s.domains[i].domain_id == e.domain_id,
        s.domains[i].user_id == e.user_id,
        s.domains[k].status == DomainStatus::Active,
        s.domains[k].domain == s.domains[i].domain,
    ensures
        spec_sweep_step(fallback, s, e) == (s, None::<Seq<char>>),
{
    let ic = choose|ic: int|
        0 <= ic < s.domains.len() && (#[trigger] s.domains[ic]).domain_id == e.domain_id
            && s.domains[ic].user_id == e.user_id;
    crate::store::lemma_domain_ids_unique(s, i, ic);
}

/// Runs one verification sweep: every entry is put through the transition
/// rule of [`DomainService::check_domain_status`], sequentially; an entry
/// whose check fails — its row gone, or its name taken `Active` meanwhile —
/// is skipped rather than aborting the sweep.  Returns the hostnames to
/// provision at the CDN provider, exactly one per domain this sweep
/// activated, in sweep order.
pub fn check_custom_domains(service: &DomainService, store: &mut Store, entries: &Vec<SweepEntry>)
    -> (r: Vec<String>)
    requires
        old(store)@.wf(),
    ensures
        final(store)@.wf(),
        final(store)@ == spec_sweep(
            service.fallback_domain@,
            old(store)@,
            entries.deep_view(),
        ).0,
        r.deep_view() == spec_sweep(service.fallback_domain@, old(store)@, entries.deep_view()).1,
{
    let ghost s_init = store@;
    let ghost eseq = entries.deep_view();
    let ghost fallback = service.fallback_domain@;
    let mut actions: Vec<String> = Vec::new();
    let n = entries.len();
    let mut i: usize = 0;
    while i < n
        invariant
            store@.wf(),
            n == entries@.len(),
            eseq == entries.deep_view(),
            fallback == service.fallback_domain@,
            i <= n,
            store@ == spec_sweep(fallback, s_init, eseq.take(i as int)).0,
            actions.deep_view() == spec_sweep(fallback, s_init, eseq.take(i as int)).1,
        decreases n - i,
    {
        let ghost s_pre = store@;
        let ghost prev_actions = actions.deep_view();
        let entry = &entries[i];
        proof {
            assert(eseq[i as int] == entry@);
        }
        match service.check_domain_status(
            store,
            entry.user_id.as_str(),
            entry.domain_id,
            &entry.domain_lookup,
            &entry.fallback_lookup,
        ) {
            Ok(outcome) => {
                let ghost out_g = outcome;
                match outcome.provision_hostname {
                    Some(hostname) => {
                        proof {
                            let w = choose|w: int|
                                {
                                    let row = #[trigger] s_pre.domains[w];
                                    let pointed = spec_points_to_platform(
                                        row.domain,
                                        fallback,
                                        entry@.domain_lookup,
                                        entry@.fallback_lookup,
                                    );
                                    let next = spec_next_status(row.status, pointed);
                                    &&& 0 <= w < s_pre.domains.len()
                                    &&& row.domain_id == entry@.domain_id
                                    &&& row.user_id == entry@.user_id
                                    &&& (out_g.provision_hostname is Some <==> next.1)
                                    &&& (out_g.provision_hostname matches Some(h) ==> h@
                                        == row.domain)
                                    &&& if next.0 == row.status {
                                        out_g.domain@ == row && store@ == s_pre
                                    } else {
                                        out_g.domain@ == (DomainV {
                                            status: next.0,
                                            updated_at: s_pre.now,
                                            ..row
                                        }) && store@ == (StoreV {
                                            domains: s_pre.domains.update(w, out_g.domain@),
                                            ..s_pre
                                        })
                                    }
                                };
                            lemma_step_activates(
                                fallback,
                                s_pre,
                                entry@,
                                store@,
                                hostname@,
                                w,
                            );
                        }
                        actions.push(hostname);
                        proof {
                            assert(actions.deep_view() =~= prev_actions.push(
                                spec_sweep_step(fallback, s_pre, eseq[i as int]).1.unwrap(),
                            ));
                        }
                    },
                    None => {
                        proof {
                            let w = choose|w: int|
                                {
                                    let row = #[trigger] s_pre.domains[w];
                                    let pointed = spec_points_to_platform(
                                        row.domain,
                                        fallback,
                                        entry@.domain_lookup,
                                        entry@.fallback_lookup,
                                    );
                                    let next = spec_next_status(row.status, pointed);
                                    &&& 0 <= w < s_pre.domains.len()
                                    &&& row.domain_id == entry@.domain_id
                                    &&& row.user_id == entry@.user_id
                                    &&& (out_g.provision_hostname is Some <==> next.1)
                                    &&& (out_g.provision_hostname matches Some(h) ==> h@
                                        == row.domain)
                                    &&& if next.0 == row.status {
                                        out_g.domain@ == row && store@ == s_pre
                                    } else {
                                        out_g.domain@ == (DomainV {
                                            status: next.0,
                                            updated_at: s_pre.now,
                                            ..row
                                        }) && store@ == (StoreV {
                                            domains: s_pre.domains.update(w, out_g.domain@),
                                            ..s_pre
                                        })
                                    }
                                };
                            lemma_step_stays(fallback, s_pre, entry@, w);
                        }
                    },
                }
            },
            Err(st) => {
                // an individual failure must not halt the sweep
                proof {
                    if st.code == Code::NotFound {
                        assert(spec_sweep_step(fallback, s_pre, entry@) == (
                            s_pre,
                            None::<Seq<char>>,
                        ));
                    } else {
                        let (w, k) = choose|w: int, k: int|
                            {
                                &&& 0 <= w < s_pre.domains.len()
                                &&& 0 <= k < s_pre.domains.len()
                                &&& k != w
                                &&& (#[trigger] s_pre.domains[w]).domain_id == entry@.domain_id
                                &&& s_pre.domains[w].user_id == entry@.user_id
                                &&& s_pre.domains[w].status == DomainStatus::Pending
                                &&& spec_points_to_platform(
                                    s_pre.domains[w].domain,
                                    fallback,
                                    entry@.domain_lookup,
                                    entry@.fallback_lookup,
                                )
                                &&& (#[trigger] s_pre.domains[k]).status == DomainStatus::Active
                                &&& s_pre.domains[k].domain == s_pre.domains[w].domain
                            };
                        lemma_step_collides(fallback, s_pre, entry@, w, k);
                    }
                }
            },
        }
        proof {
            assert(eseq.take(i as int + 1).drop_last() =~= eseq.take(i as int));
            assert(eseq.take(i as int + 1).last() == eseq[i as int]);
        }
        i += 1;
    }
    proof {
        assert(eseq.take(n as int) =~= eseq);
    }
    actions
}

} // verus!
