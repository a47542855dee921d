//! In-memory relational store: the verified semantics of the repository
//! layer.
//!
//! The five tables of the persisted schema are modelled as plain rows, and
//! every repository operation is specified and verified against this model:
//! ownership scoping, `NotFound` for writes that match no row, uniqueness
//! surfacing as a unique-violation error, missing parents surfacing as a
//! foreign-key error, and the assembly of website aggregates from their
//! child rows.  The process embedding this crate executes the corresponding
//! SQL (see [`crate::sql`]) against the real engine; this module is the
//! reference for what those statements mean.

use vstd::prelude::*;

use crate::errors::{DbError, SqlState};
use crate::model::{
    clone_opt_string, str_eq, Customization, CustomizationAsRel, CustomizationAsRelV,
    CustomizationV, Domain, DomainAsRel, DomainAsRelV, DomainStatus, DomainV, Page, PageAsRel,
    PageAsRelV, PageType, PageV, StaticPage, StaticPageV, Website, WebsiteV,
    spec_domain_status_name, spec_page_type_name,
};

verus! {

/// The tables of the service, plus the id sequences and the clock value the
/// engine would supply.
pub struct Store {
    pub websites: Vec<Website>,
    pub domains: Vec<Domain>,
    pub pages: Vec<Page>,
    pub customizations: Vec<Customization>,
    pub static_pages: Vec<StaticPage>,
    pub next_domain_id: i64,
    pub next_page_id: i64,
    pub now: i64,
}

/// Mathematical view of [`Store`].
pub struct StoreV {
    pub websites: Seq<WebsiteV>,
    pub domains: Seq<DomainV>,
    pub pages: Seq<PageV>,
    pub customizations: Seq<CustomizationV>,
    pub static_pages: Seq<StaticPageV>,
    pub next_domain_id: i64,
    pub next_page_id: i64,
    pub now: i64,
}

impl View for Store {
    type V = StoreV;

    open spec fn view(&self) -> StoreV {
        StoreV {
            websites: self.websites.deep_view(),
            domains: self.domains.deep_view(),
            pages: self.pages.deep_view(),
            customizations: self.customizations.deep_view(),
            static_pages: self.static_pages.deep_view(),
            next_domain_id: self.next_domain_id,
            next_page_id: self.next_page_id,
            now: self.now,
        }
    }
}

impl Store {
    /// An empty store whose id sequences start at 1.
    pub fn new(now: i64) -> (r: Store)
        ensures
            r@.websites == Seq::<WebsiteV>::empty(),
            r@.domains == Seq::<DomainV>::empty(),
            r@.pages == Seq::<PageV>::empty(),
            r@.customizations == Seq::<CustomizationV>::empty(),
            r@.static_pages == Seq::<StaticPageV>::empty(),
            r@.next_domain_id == 1,
            r@.next_page_id == 1,
            r@.now == now,
            r@.wf(),
    {
        let r = Store {
            websites: Vec::new(),
            domains: Vec::new(),
            pages: Vec::new(),
            customizations: Vec::new(),
            static_pages: Vec::new(),
            next_domain_id: 1,
            next_page_id: 1,
            now,
        };
        proof {
            assert(r@.websites =~= Seq::<WebsiteV>::empty());
            assert(r@.domains =~= Seq::<DomainV>::empty());
            assert(r@.pages =~= Seq::<PageV>::empty());
            assert(r@.customizations =~= Seq::<CustomizationV>::empty());
            assert(r@.static_pages =~= Seq::<StaticPageV>::empty());
        }
        r
    }

    /// Advances the clock value used for row timestamps.
    pub fn set_now(&mut self, now: i64)
        ensures
            *final(self) == (Store { now, ..*old(self) }),
    {
        self.now = now;
    }
}

impl StoreV {
    /// Table well-formedness: the uniqueness the schema's constraints
    /// enforce, the id sequences ahead of every issued id, and website rows
    /// stored bare (child collections are attached only on aggregate reads).
    pub open spec fn wf(self) -> bool {
        &&& 0 < self.next_domain_id
        &&& 0 < self.next_page_id
        &&& forall|i: int, j: int|
            0 <= i < j < self.websites.len() ==> (#[trigger] self.websites[i]).website_id != (
            #[trigger] self.websites[j]).website_id
        &&& forall|i: int, j: int|
            0 <= i < j < self.websites.len() ==> !((#[trigger] self.websites[i]).name == (
            #[trigger] self.websites[j]).name && self.websites[i].user_id
                == self.websites[j].user_id)
        &&& forall|i: int|
            0 <= i < self.websites.len() ==> (#[trigger] self.websites[i]).customization is None
                && self.websites[i].domains.len() == 0 && self.websites[i].pages.len() == 0
        &&& forall|i: int, j: int|
            0 <= i < j < self.domains.len() ==> (#[trigger] self.domains[i]).domain_id != (
            #[trigger] self.domains[j]).domain_id
        &&& forall|i: int|
            0 <= i < self.domains.len() ==> 0 < (#[trigger] self.domains[i]).domain_id
                < self.next_domain_id
        &&& forall|i: int, j: int|
            0 <= i < self.domains.len() && 0 <= j < self.domains.len() && i != j ==> !((
            #[trigger] self.domains[i]).status == DomainStatus::Active && (
            #[trigger] self.domains[j]).status == DomainStatus::Active && self.domains[i].domain
                == self.domains[j].domain)
        &&& forall|i: int, j: int|
            0 <= i < j < self.pages.len() ==> (#[trigger] self.pages[i]).page_id != (
            #[trigger] self.pages[j]).page_id
        &&& forall|i: int|
            0 <= i < self.pages.len() ==> 0 < (#[trigger] self.pages[i]).page_id
                < self.next_page_id
        &&& forall|i: int, j: int|
            0 <= i < j < self.customizations.len() ==> (
            #[trigger] self.customizations[i]).website_id != (
            #[trigger] self.customizations[j]).website_id
        &&& forall|i: int, j: int|
            0 <= i < j < self.static_pages.len() ==> (#[trigger] self.static_pages[i]).page_id != (
            #[trigger] self.static_pages[j]).page_id
        &&& forall|i: int|
            0 <= i < self.static_pages.len() ==> 0 < (#[trigger] self.static_pages[i]).page_id
                < self.next_page_id
    }

    /// Whether a website row with this id exists.
    pub open spec fn has_website(self, website_id: Seq<char>) -> bool {
        exists|i: int|
            0 <= i < self.websites.len() && (#[trigger] self.websites[i]).website_id == website_id
    }

    /// Whether a website row with this id exists and is owned by this user.
    pub open spec fn has_website_for_user(self, website_id: Seq<char>, user_id: Seq<char>) -> bool {
        exists|i: int|
            0 <= i < self.websites.len() && (#[trigger] self.websites[i]).website_id == website_id
                && self.websites[i].user_id == user_id
    }

    /// Whether a website row with this display name owned by this user
    /// exists.
    pub open spec fn has_website_named(self, name: Seq<char>, user_id: Seq<char>) -> bool {
        exists|i: int|
            0 <= i < self.websites.len() && (#[trigger] self.websites[i]).name == name
                && self.websites[i].user_id == user_id
    }

    /// Whether a domain row with this name and status exists.
    pub open spec fn has_domain_with_status(self, domain: Seq<char>, status: DomainStatus) -> bool {
        exists|i: int|
            0 <= i < self.domains.len() && (#[trigger] self.domains[i]).domain == domain
                && self.domains[i].status == status
    }
}

/// The child-row projection of a domain row.
pub open spec fn spec_domain_rel_of(d: DomainV) -> DomainAsRelV {
    DomainAsRelV {
        domain_id: d.domain_id,
        domain: d.domain,
        status: spec_domain_status_name(d.status),
    }
}

/// The child-row projection of a page row.
pub open spec fn spec_page_rel_of(p: PageV) -> PageAsRelV {
    PageAsRelV {
        page_id: p.page_id,
        page_type: spec_page_type_name(p.page_type),
        content_id: p.content_id,
        title: p.title,
        is_home_page: p.is_home_page,
        path: p.path,
    }
}

/// Projects a domain row into the given website's aggregate, or drops it.
pub open spec fn spec_domain_rel_proj(website_id: Seq<char>) -> spec_fn(DomainV) -> Option<
    DomainAsRelV,
> {
    |d: DomainV|
        if d.website_id == website_id {
            Some(spec_domain_rel_of(d))
        } else {
            None
        }
}

/// Projects a page row into the given website's aggregate, or drops it.
pub open spec fn spec_page_rel_proj(website_id: Seq<char>) -> spec_fn(PageV) -> Option<
    PageAsRelV,
> {
    |p: PageV|
        if p.website_id == website_id {
            Some(spec_page_rel_of(p))
        } else {
            None
        }
}

/// The domains attached to a website aggregate: the child projections of the
/// website's domain rows, in table order.
pub open spec fn spec_domain_rels_of(s: StoreV, website_id: Seq<char>) -> Seq<DomainAsRelV> {
    s.domains.filter_map(spec_domain_rel_proj(website_id))
}

/// The pages attached to a website aggregate.
pub open spec fn spec_page_rels_of(s: StoreV, website_id: Seq<char>) -> Seq<PageAsRelV> {
    s.pages.filter_map(spec_page_rel_proj(website_id))
}

/// The customization attached to a website aggregate, when its row exists.
pub open spec fn spec_customization_rel_of(s: StoreV, website_id: Seq<char>) -> Option<
    CustomizationAsRelV,
> {
    if exists|i: int|
        0 <= i < s.customizations.len() && (#[trigger] s.customizations[i]).website_id
            == website_id {
        let i = choose|i: int|
            0 <= i < s.customizations.len() && (#[trigger] s.customizations[i]).website_id
                == website_id;
        Some(
            CustomizationAsRelV {
                primary_color: s.customizations[i].primary_color,
                secondary_color: s.customizations[i].secondary_color,
                logo_image_url: s.customizations[i].logo_image_url,
            },
        )
    } else {
        None
    }
}

/// The aggregate assembled for a website row: the bare row with its child
/// collections attached.
pub open spec fn spec_aggregate_of(s: StoreV, row: WebsiteV) -> WebsiteV {
    WebsiteV {
        customization: spec_customization_rel_of(s, row.website_id),
        domains: spec_domain_rels_of(s, row.website_id),
        pages: spec_page_rels_of(s, row.website_id),
        ..row
    }
}

/// Collects the child projections of a website's domain rows.
fn domain_rels_of(store: &Store, website_id: &str) -> (r: Vec<DomainAsRel>)
    ensures
        r.deep_view() == spec_domain_rels_of(store@, website_id@),
{
    let ghost f = spec_domain_rel_proj(website_id@);
    let mut out: Vec<DomainAsRel> = Vec::new();
    let n = store.domains.len();
    let mut i: usize = 0;
    while i < n
        invariant
            n == store.domains@.len(),
            i <= n,
            f == spec_domain_rel_proj(website_id@),
            out.deep_view() == store@.domains.take(i as int).filter_map(f),
        decreases n - i,
    {
        let d = &store.domains[i];
        proof {
            assert(store@.domains.take(i as int + 1).drop_last() =~= store@.domains.take(i as int));
            assert(store@.domains.take(i as int + 1).last() == d@);
        }
        let ghost prev = out.deep_view();
        if str_eq(d.website_id.as_str(), website_id) {
            out.push(d.to_rel());
            proof {
                assert(out.deep_view() =~= prev + seq![spec_domain_rel_of(d@)]);
            }
        }
        i += 1;
    }
    proof {
        assert(store@.domains.take(n as int) =~= store@.domains);
    }
    out
}

/// Collects the child projections of a website's page rows.
fn page_rels_of(store: &Store, website_id: &str) -> (r: Vec<PageAsRel>)
    ensures
        r.deep_view() == spec_page_rels_of(store@, website_id@),
{
    let ghost f = spec_page_rel_proj(website_id@);
    let mut out: Vec<PageAsRel> = Vec::new();
    let n = store.pages.len();
    let mut i: usize = 0;
    while i < n
        invariant
            n == store.pages@.len(),
            i <= n,
            f == spec_page_rel_proj(website_id@),
            out.deep_view() == store@.pages.take(i as int).filter_map(f),
        decreases n - i,
    {
        let p = &store.pages[i];
        proof {
            assert(store@.pages.take(i as int + 1).drop_last() =~= store@.pages.take(i as int));
            assert(store@.pages.take(i as int + 1).last() == p@);
        }
        let ghost prev = out.deep_view();
        if str_eq(p.website_id.as_str(), website_id) {
            out.push(p.to_rel());
            proof {
                assert(out.deep_view() =~= prev + seq![spec_page_rel_of(p@)]);
            }
        }
        i += 1;
    }
    proof {
        assert(store@.pages.take(n as int) =~= store@.pages);
    }
    out
}

/// Finds the customization projection of a website, if its row exists.
fn customization_rel_of(store: &Store, website_id: &str) -> (r: Option<CustomizationAsRel>)
    requires
        store@.wf(),
    ensures
        r.deep_view() == spec_customization_rel_of(store@, website_id@),
{
    let n = store.customizations.len();
    let mut i: usize = 0;
    while i < n
        invariant
            store@.wf(),
            n == store.customizations@.len(),
            i <= n,
            forall|j: int|
                0 <= j < i ==> (#[trigger] store@.customizations[j]).website_id != website_id@,
        decreases n - i,
    {
        let c = &store.customizations[i];
        if str_eq(c.website_id.as_str(), website_id) {
            let rel = c.to_rel();
            proof {
                assert(store@.customizations[i as int].website_id == website_id@);
                let k = choose|k: int|
                    0 <= k < store@.customizations.len() && (
                    #[trigger] store@.customizations[k]).website_id == website_id@;
                if k < i as int {
                    assert(store@.customizations[k].website_id != store@.customizations[
                        i as int].website_id);
                } else if k > i as int {
                    assert(store@.customizations[i as int].website_id
                        != store@.customizations[k].website_id);
                }
                assert(k == i as int);
            }
            return Some(rel);
        }
        i += 1;
    }
    None
}

/// The website row with the given id.
pub open spec fn spec_website_row(s: StoreV, website_id: Seq<char>) -> WebsiteV
    recommends
        s.has_website(website_id),
{
    s.websites[choose|i: int|
        0 <= i < s.websites.len() && (#[trigger] s.websites[i]).website_id == website_id]
}

/// In a well-formed store the website row at a matching index is the row
/// with that id.
pub proof fn lemma_website_row_at(s: StoreV, i: int)
    requires
        s.wf(),
        0 <= i < s.websites.len(),
    ensures
        spec_website_row(s, s.websites[i].website_id) == s.websites[i],
{
    let id = s.websites[i].website_id;
    assert(s.has_website(id));
    let k = choose|k: int|
        0 <= k < s.websites.len() && (#[trigger] s.websites[k]).website_id == id;
    if k < i {
        assert(s.websites[k].website_id != s.websites[i].website_id);
    } else if k > i {
        assert(s.websites[i].website_id != s.websites[k].website_id);
    }
}

/// Finds the table index of the website row with this id.
fn find_website_index(store: &Store, website_id: &str) -> (r: Option<usize>)
    ensures
        match r {
            Some(i) => i < store@.websites.len() && store@.websites[i as int].website_id
                == website_id@,
            None => !store@.has_website(website_id@),
        },
{
    let n = store.websites.len();
    let mut i: usize = 0;
    while i < n
        invariant
            n == store.websites@.len(),
            i <= n,
            forall|j: int| 0 <= j < i ==> (#[trigger] store@.websites[j]).website_id != website_id@,
        decreases n - i,
    {
        if str_eq(store.websites[i].website_id.as_str(), website_id) {
            return Some(i);
        }
        i += 1;
    }
    None
}

/// Assembles the aggregate for a website row found at the given table index.
fn aggregate_of(store: &Store, row: &Website) -> (r: Website)
    requires
        store@.wf(),
        row@.customization is None,
        row@.domains.len() == 0,
        row@.pages.len() == 0,
    ensures
        r@ == spec_aggregate_of(store@, row@),
{
    let r = Website {
        website_id: row.website_id.clone(),
        user_id: row.user_id.clone(),
        created_at: row.created_at,
        updated_at: row.updated_at,
        name: row.name.clone(),
        client_id: row.client_id.clone(),
        zitadel_app_id: row.zitadel_app_id.clone(),
        customization: customization_rel_of(store, row.website_id.as_str()),
        domains: domain_rels_of(store, row.website_id.as_str()),
        pages: page_rels_of(store, row.website_id.as_str()),
    };
    r
}

/// Copies a bare website row (one without attached child collections).
fn clone_website_row(row: &Website) -> (r: Website)
    requires
        row@.customization is None,
        row@.domains.len() == 0,
        row@.pages.len() == 0,
    ensures
        r@ == row@,
{
    let r = Website {
        website_id: row.website_id.clone(),
        user_id: row.user_id.clone(),
        created_at: row.created_at,
        updated_at: row.updated_at,
        name: row.name.clone(),
        client_id: row.client_id.clone(),
        zitadel_app_id: row.zitadel_app_id.clone(),
        customization: None,
        domains: Vec::new(),
        pages: Vec::new(),
    };
    proof {
        assert(r@.domains =~= row@.domains);
        assert(r@.pages =~= row@.pages);
    }
    r
}

impl Website {
    /// Inserts a website row.  The id and the display name scoped to its
    /// owner are unique; a collision surfaces as a unique violation, as the
    /// schema's constraints would report it.
    pub fn create(
        store: &mut Store,
        website_id: &str,
        user_id: &str,
        name: &str,
        client_id: &str,
        zitadel_app_id: &str,
    ) -> (r: Result<Website, DbError>)
        requires
            old(store)@.wf(),
        ensures
            final(store)@.wf(),
            match r {
                Ok(w) => {
                    &&& !old(store)@.has_website(website_id@)
                    &&& !old(store)@.has_website_named(name@, user_id@)
                    &&& w@ == (WebsiteV {
                        website_id: website_id@,
                        user_id: user_id@,
                        created_at: old(store)@.now,
                        updated_at: old(store)@.now,
                        name: name@,
                        client_id: client_id@,
                        zitadel_app_id: zitadel_app_id@,
                        customization: None,
                        domains: Seq::empty(),
                        pages: Seq::empty(),
                    })
                    &&& final(store)@ == (StoreV {
                        websites: old(store)@.websites.push(w@),
                        ..old(store)@
                    })
                },
                Err(e) => {
                    &&& *final(store) == *old(store)
                    &&& e matches DbError::Database(SqlState::UniqueViolation, _)
                    &&& (old(store)@.has_website(website_id@) || old(store)@.has_website_named(
                        name@,
                        user_id@,
                    ))
                },
            },
    {
        let n = store.websites.len();
        let mut i: usize = 0;
        while i < n
            invariant
                *store == *old(store),
                store@.wf(),
                n == store.websites@.len(),
                i <= n,
                forall|j: int|
                    0 <= j < i ==> (#[trigger] store@.websites[j]).website_id != website_id@,
                forall|j: int|
                    0 <= j < i ==> !((#[trigger] store@.websites[j]).name == name@
                        && store@.websites[j].user_id == user_id@),
            decreases n - i,
        {
            let w = &store.websites[i];
            if str_eq(w.website_id.as_str(), website_id) {
                proof {
                    assert(store@.websites[i as int] == w@);
                    assert(store@.websites[i as int].website_id == website_id@);
                    assert(old(store)@.has_website(website_id@));
                }
                return Err(
                    DbError::Database(
                        SqlState::UniqueViolation,
                        String::from_str("duplicate key value violates unique constraint"),
                    ),
                );
            }
            if str_eq(w.name.as_str(), name) && str_eq(w.user_id.as_str(), user_id) {
                proof {
                    assert(store@.websites[i as int] == w@);
                    assert(store@.websites[i as int].name == name@ && store@.websites[
                        i as int].user_id == user_id@);
                    assert(old(store)@.has_website_named(name@, user_id@));
                }
                return Err(
                    DbError::Database(
                        SqlState::UniqueViolation,
                        String::from_str("duplicate key value violates unique constraint"),
                    ),
                );
            }
            i += 1;
        }
        let row = Website {
            website_id: website_id.to_owned(),
            user_id: user_id.to_owned(),
            created_at: store.now,
            updated_at: store.now,
            name: name.to_owned(),
            client_id: client_id.to_owned(),
            zitadel_app_id: zitadel_app_id.to_owned(),
            customization: None,
            domains: Vec::new(),
            pages: Vec::new(),
        };
        let result = clone_website_row(&row);
        let ghost old_store = store@;
        store.websites.push(row);
        proof {
            assert(result@.domains =~= Seq::<DomainAsRelV>::empty());
            assert(result@.pages =~= Seq::<PageAsRelV>::empty());
            assert(store@.websites =~= old_store.websites.push(result@));
            assert(store@.domains =~= old_store.domains);
            assert(store@.pages =~= old_store.pages);
            assert(store@.customizations =~= old_store.customizations);
            assert(store@.static_pages =~= old_store.static_pages);
            assert(store@ == (StoreV { websites: old_store.websites.push(result@), ..old_store }));
            assert forall|a: int, b: int|
                0 <= a < b < store@.websites.len() implies (#[trigger] store@.websites[a]).website_id
                != (#[trigger] store@.websites[b]).website_id by {
                if b == store@.websites.len() - 1 {
                    assert(store@.websites[a] == old_store.websites[a]);
                }
            }
            assert forall|a: int, b: int|
                0 <= a < b < store@.websites.len() implies !((
            #[trigger] store@.websites[a]).name == (#[trigger] store@.websites[b]).name
                && store@.websites[a].user_id == store@.websites[b].user_id) by {
                if b == store@.websites.len() - 1 {
                    assert(store@.websites[a] == old_store.websites[a]);
                }
            }
            assert(store@.wf());
        }
        Ok(result)
    }

    /// Fetches a website aggregate by id: the row together with its
    /// customization, domains and pages.
    pub fn get(store: &Store, website_id: &str) -> (r: Option<Website>)
        requires
            store@.wf(),
        ensures
            match r {
                Some(w) => store@.has_website(website_id@) && w@ == spec_aggregate_of(
                    store@,
                    spec_website_row(store@, website_id@),
                ),
                None => !store@.has_website(website_id@),
            },
    {
        match find_website_index(store, website_id) {
            Some(i) => {
                proof {
                    lemma_website_row_at(store@, i as int);
                }
                Some(aggregate_of(store, &store.websites[i]))
            },
            None => None,
        }
    }

    /// Fetches a website aggregate by id, scoped to its owner.
    pub fn get_for_user(store: &Store, website_id: &str, user_id: &str) -> (r: Option<Website>)
        requires
            store@.wf(),
        ensures
            match r {
                Some(w) => store@.has_website_for_user(website_id@, user_id@) && w@
                    == spec_aggregate_of(store@, spec_website_row(store@, website_id@)),
                None => !store@.has_website_for_user(website_id@, user_id@),
            },
    {
        match find_website_index(store, website_id) {
            Some(i) => {
                proof {
                    lemma_website_row_at(store@, i as int);
                }
                if str_eq(store.websites[i].user_id.as_str(), user_id) {
                    proof {
                        assert(store@.websites[i as int].website_id == website_id@
                            && store@.websites[i as int].user_id == user_id@);
                    }
                    Some(aggregate_of(store, &store.websites[i]))
                } else {
                    proof {
                        assert forall|j: int|
                            0 <= j < store@.websites.len() implies !((
                        #[trigger] store@.websites[j]).website_id == website_id@
                            && store@.websites[j].user_id == user_id@) by {
                            if store@.websites[j].website_id == website_id@ {
                                lemma_website_row_at(store@, j);
                                lemma_website_row_at(store@, i as int);
                            }
                        }
                    }
                    None
                }
            },
            None => None,
        }
    }

    /// Fetches the website aggregate that a domain name belongs to: the
    /// first domain row carrying the name whose website row exists.
    pub fn get_by_domain(store: &Store, domain: &str) -> (r: Option<Website>)
        requires
            store@.wf(),
        ensures
            match r {
                Some(w) => exists|i: int|
                    {
                        &&& 0 <= i < store@.domains.len()
                        &&& (#[trigger] store@.domains[i]).domain == domain@
                        &&& store@.has_website(store@.domains[i].website_id)
                        &&& w@ == spec_aggregate_of(
                            store@,
                            spec_website_row(store@, store@.domains[i].website_id),
                        )
                    },
                None => forall|i: int|
                    0 <= i < store@.domains.len() && (#[trigger] store@.domains[i]).domain
                        == domain@ ==> !store@.has_website(store@.domains[i].website_id),
            },
    {
        let n = store.domains.len();
        let mut i: usize = 0;
        while i < n
            invariant
                store@.wf(),
                n == store.domains@.len(),
                i <= n,
                forall|j: int|
                    0 <= j < i && (#[trigger] store@.domains[j]).domain == domain@
                        ==> !store@.has_website(store@.domains[j].website_id),
            decreases n - i,
        {
            let d = &store.domains[i];
            if str_eq(d.domain.as_str(), domain) {
                match Website::get(store, d.website_id.as_str()) {
                    Some(w) => {
                        proof {
                            assert(store@.domains[i as int] == d@);
                            assert(store@.domains[i as int].domain == domain@
                                && store@.has_website(store@.domains[i as int].website_id));
                        }
                        return Some(w);
                    },
                    None => {},
                }
            }
            i += 1;
        }
        None
    }

    /// Fetches a website aggregate by display name; with an owner the name
    /// is unique, without one the first matching row is returned.
    pub fn get_by_name(store: &Store, name: &str, user_id: Option<&str>) -> (r: Option<Website>)
        requires
            store@.wf(),
        ensures
            match user_id {
                Some(u) => match r {
                    Some(w) => store@.has_website_named(name@, u@) && w@.name == name@
                        && w@.user_id == u@,
                    None => !store@.has_website_named(name@, u@),
                },
                None => match r {
                    Some(w) => exists|i: int|
                        0 <= i < store@.websites.len() && (#[trigger] store@.websites[i]).name
                            == name@ && w@ == spec_aggregate_of(store@, store@.websites[i]),
                    None => forall|i: int|
                        0 <= i < store@.websites.len() ==> (#[trigger] store@.websites[i]).name
                            != name@,
                },
            },
    {
        let n = store.websites.len();
        let mut i: usize = 0;
        while i < n
            invariant
                store@.wf(),
                n == store.websites@.len(),
                i <= n,
                match user_id {
                    Some(u) => forall|j: int|
                        0 <= j < i ==> !((#[trigger] store@.websites[j]).name == name@
                            && store@.websites[j].user_id == u@),
                    None => forall|j: int|
                        0 <= j < i ==> (#[trigger] store@.websites[j]).name != name@,
                },
            decreases n - i,
        {
            let w = &store.websites[i];
            let name_matches = str_eq(w.name.as_str(), name);
            let user_matches = match user_id {
                Some(u) => str_eq(w.user_id.as_str(), u),
                None => true,
            };
            if name_matches && user_matches {
                proof {
                    assert(store@.websites[i as int].customization is None && store@.websites[
                        i as int].domains.len() == 0 && store@.websites[i as int].pages.len()
                        == 0);
                }
                let agg = aggregate_of(store, w);
                return Some(agg);
            }
            i += 1;
        }
        None
    }

    /// Updates a website row, scoped to its owner: an optional new display
    /// name, and a fresh update timestamp.  A write that matches no row
    /// surfaces as `NotFound`; a name already used by the owner as a unique
    /// violation.
    pub fn update(store: &mut Store, website_id: &str, user_id: &str, name: &Option<String>) -> (r:
        Result<Website, DbError>)
        requires
            old(store)@.wf(),
        ensures
            final(store)@.wf(),
            match r {
                Ok(w) => {
                    &&& old(store)@.has_website_for_user(website_id@, user_id@)
                    &&& w@ == (WebsiteV {
                        name: match name {
                            Some(nm) => nm@,
                            None => spec_website_row(old(store)@, website_id@).name,
                        },
                        updated_at: old(store)@.now,
                        ..spec_website_row(old(store)@, website_id@)
                    })
                    &&& exists|i: int|
                        {
                            &&& 0 <= i < old(store)@.websites.len()
                            &&& (#[trigger] old(store)@.websites[i]).website_id == website_id@
                            &&& final(store)@ == (StoreV {
                                websites: old(store)@.websites.update(i, w@),
                                ..old(store)@
                            })
                        }
                },
                Err(e) => {
                    &&& *final(store) == *old(store)
                    &&& match e {
                        DbError::NotFound => !old(store)@.has_website_for_user(
                            website_id@,
                            user_id@,
                        ),
                        DbError::Database(SqlState::UniqueViolation, _) => old(
                            store,
                        )@.has_website_for_user(website_id@, user_id@) && (name matches Some(nm)
                            && old(store)@.has_website_named(nm@, user_id@)
                            && spec_website_row(old(store)@, website_id@).name != nm@),
                        _ => false,
                    }
                },
            },
    {
        let i = match find_website_index(store, website_id) {
            Some(i) => i,
            None => {
                return Err(DbError::NotFound);
            },
        };
        proof {
            lemma_website_row_at(store@, i as int);
        }
        if !str_eq(store.websites[i].user_id.as_str(), user_id) {
            proof {
                assert forall|j: int|
                    0 <= j < store@.websites.len() implies !((
                #[trigger] store@.websites[j]).website_id == website_id@
                    && store@.websites[j].user_id == user_id@) by {
                    if store@.websites[j].website_id == website_id@ {
                        lemma_website_row_at(store@, j);
                        lemma_website_row_at(store@, i as int);
                    }
                }
            }
            return Err(DbError::NotFound);
        }
        if let Some(nm) = name {
            if !str_eq(store.websites[i].name.as_str(), nm.as_str()) {
                // the display name is unique per owner
                let n = store.websites.len();
                let mut j: usize = 0;
                while j < n
                    invariant
                        *store == *old(store),
                        store@.wf(),
                        n == store.websites@.len(),
                        j <= n,
                        i < n,
                        store@.websites[i as int].website_id == website_id@,
                        store@.websites[i as int].user_id == user_id@,
                        store@.websites[i as int].name != nm@,
                        name matches Some(x) && x@ == nm@,
                        forall|k: int|
                            0 <= k < j ==> !((#[trigger] store@.websites[k]).name == nm@
                                && store@.websites[k].user_id == user_id@),
                    decreases n - j,
                {
                    let w = &store.websites[j];
                    if str_eq(w.name.as_str(), nm.as_str()) && str_eq(
                        w.user_id.as_str(),
                        user_id,
                    ) {
                        proof {
                            lemma_website_row_at(store@, i as int);
                            assert(store@.websites[j as int].name == nm@
                                && store@.websites[j as int].user_id == user_id@);
                        }
                        return Err(
                            DbError::Database(
                                SqlState::UniqueViolation,
                                String::from_str(
                                    "duplicate key value violates unique constraint",
                                ),
                            ),
                        );
                    }
                    j += 1;
                }
            }
        }
        let ghost old_store = store@;
        let now = store.now;
        let mut new_row = clone_website_row(&store.websites[i]);
        if let Some(nm) = name {
            new_row.name = nm.clone();
        }
        new_row.updated_at = now;
        let result = clone_website_row(&new_row);
        store.websites[i] = new_row;
        proof {
            assert(store@.websites =~= old_store.websites.update(i as int, result@));
            assert(store@.domains =~= old_store.domains);
            assert(store@.pages =~= old_store.pages);
            assert(store@.customizations =~= old_store.customizations);
            assert(store@.static_pages =~= old_store.static_pages);
            assert(store@ == (StoreV {
                websites: old_store.websites.update(i as int, result@),
                ..old_store
            }));
            assert forall|a: int, b: int|
                0 <= a < b < store@.websites.len() implies (#[trigger] store@.websites[a]).website_id
                != (#[trigger] store@.websites[b]).website_id by {
                assert(old_store.websites[a].website_id != old_store.websites[b].website_id);
            }
            assert forall|a: int, b: int|
                0 <= a < b < store@.websites.len() implies !((
            #[trigger] store@.websites[a]).name == (#[trigger] store@.websites[b]).name
                && store@.websites[a].user_id == store@.websites[b].user_id) by {
                if a != i as int && b != i as int {
                    assert(!(old_store.websites[a].name == old_store.websites[b].name
                        && old_store.websites[a].user_id == old_store.websites[b].user_id));
                }
            }
            assert(store@.wf());
        }
        Ok(result)
    }

    /// Deletes a website row, scoped to its owner, returning the removed
    /// row.  A delete that matches no row surfaces as `NotFound`.
    pub fn delete(store: &mut Store, website_id: &str, user_id: &str) -> (r: Result<
        Website,
        DbError,
    >)
        requires
            old(store)@.wf(),
        ensures
            final(store)@.wf(),
            match r {
                Ok(w) => {
                    &&& old(store)@.has_website_for_user(website_id@, user_id@)
                    &&& w@ == spec_website_row(old(store)@, website_id@)
                    &&& exists|i: int|
                        {
                            &&& 0 <= i < old(store)@.websites.len()
                            &&& (#[trigger] old(store)@.websites[i]).website_id == website_id@
                            &&& final(store)@ == (StoreV {
                                websites: old(store)@.websites.remove(i),
                                ..old(store)@
                            })
                        }
                },
                Err(e) => {
                    &&& *final(store) == *old(store)
                    &&& e matches DbError::NotFound
                    &&& !old(store)@.has_website_for_user(website_id@, user_id@)
                },
            },
    {
        let i = match find_website_index(store, website_id) {
            Some(i) => i,
            None => {
                return Err(DbError::NotFound);
            },
        };
        proof {
            lemma_website_row_at(store@, i as int);
        }
        if !str_eq(store.websites[i].user_id.as_str(), user_id) {
            proof {
                assert forall|j: int|
                    0 <= j < store@.websites.len() implies !((
                #[trigger] store@.websites[j]).website_id == website_id@
                    && store@.websites[j].user_id == user_id@) by {
                    if store@.websites[j].website_id == website_id@ {
                        lemma_website_row_at(store@, j);
                        lemma_website_row_at(store@, i as int);
                    }
                }
            }
            return Err(DbError::NotFound);
        }
        let ghost old_store = store@;
        let result = clone_website_row(&store.websites[i]);
        store.websites.remove(i);
        proof {
            assert(store@.websites =~= old_store.websites.remove(i as int));
            assert(store@.domains =~= old_store.domains);
            assert(store@.pages =~= old_store.pages);
            assert(store@.customizations =~= old_store.customizations);
            assert(store@.static_pages =~= old_store.static_pages);
            assert(store@ == (StoreV {
                websites: old_store.websites.remove(i as int),
                ..old_store
            }));
            assert forall|a: int, b: int|
                0 <= a < b < store@.websites.len() implies (#[trigger] store@.websites[a]).website_id
                != (#[trigger] store@.websites[b]).website_id by {
                let a0 = if a < i as int {
                    a
                } else {
                    a + 1
                };
                let b0 = if b < i as int {
                    b
                } else {
                    b + 1
                };
                assert(store@.websites[a] == old_store.websites[a0]);
                assert(store@.websites[b] == old_store.websites[b0]);
                assert(old_store.websites[a0].website_id != old_store.websites[b0].website_id);
            }
            assert forall|a: int, b: int|
                0 <= a < b < store@.websites.len() implies !((
            #[trigger] store@.websites[a]).name == (#[trigger] store@.websites[b]).name
                && store@.websites[a].user_id == store@.websites[b].user_id) by {
                let a0 = if a < i as int {
                    a
                } else {
                    a + 1
                };
                let b0 = if b < i as int {
                    b
                } else {
                    b + 1
                };
                assert(store@.websites[a] == old_store.websites[a0]);
                assert(store@.websites[b] == old_store.websites[b0]);
                assert(!(old_store.websites[a0].name == old_store.websites[b0].name
                    && old_store.websites[a0].user_id == old_store.websites[b0].user_id));
            }
            assert(store@.wf());
        }
        Ok(result)
    }
}

/// Filtering preserves every pairwise-exclusion property.
pub proof fn lemma_filter_pairwise<T>(s: Seq<T>, pred: spec_fn(T) -> bool, bad: spec_fn(T, T) -> bool)
    requires
        forall|i: int, j: int|
            0 <= i < s.len() && 0 <= j < s.len() && i != j ==> !bad(
                #[trigger] s[i],
                #[trigger] s[j],
            ),
    ensures
        forall|i: int, j: int|
            0 <= i < s.filter(pred).len() && 0 <= j < s.filter(pred).len() && i != j ==> !bad(
                #[trigger] s.filter(pred)[i],
                #[trigger] s.filter(pred)[j],
            ),
    decreases s.len(),
{
    reveal(Seq::filter);
    if s.len() > 0 {
        let rest = s.drop_last();
        assert forall|i: int, j: int|
            0 <= i < rest.len() && 0 <= j < rest.len() && i != j implies !bad(
            #[trigger] rest[i],
            #[trigger] rest[j],
        ) by {
            assert(rest[i] == s[i] && rest[j] == s[j]);
        }
        lemma_filter_pairwise(rest, pred, bad);
        let f = s.filter(pred);
        let fr = rest.filter(pred);
        assert forall|i: int, j: int|
            0 <= i < f.len() && 0 <= j < f.len() && i != j implies !bad(
            #[trigger] f[i],
            #[trigger] f[j],
        ) by {
            if i < fr.len() && j < fr.len() {
                assert(f[i] == fr[i] && f[j] == fr[j]);
            } else {
                // one of the two is the kept last element of `s`
                let (a, b) = if i < fr.len() {
                    (i, j)
                } else {
                    (j, i)
                };
                assert(f[b] == s.last());
                assert(fr.contains(fr[a]));
                rest.lemma_filter_contains_rev(pred, fr[a]);
                let k = choose|k: int| 0 <= k < rest.len() && rest[k] == fr[a];
                assert(s[k] == rest[k]);
                assert(!bad(s[k], s[s.len() - 1]) && !bad(s[s.len() - 1], s[k]));
            }
        }
    }
}

/// Filtering preserves every elementwise property.
pub proof fn lemma_filter_elementwise<T>(
    s: Seq<T>,
    pred: spec_fn(T) -> bool,
    prop: spec_fn(T) -> bool,
)
    requires
        forall|i: int| 0 <= i < s.len() ==> prop(#[trigger] s[i]),
    ensures
        forall|i: int| 0 <= i < s.filter(pred).len() ==> prop(#[trigger] s.filter(pred)[i]),
{
    let f = s.filter(pred);
    assert forall|i: int| 0 <= i < f.len() implies prop(#[trigger] f[i]) by {
        assert(f.contains(f[i]));
        s.lemma_filter_contains_rev(pred, f[i]);
        let k = choose|k: int| 0 <= k < s.len() && s[k] == f[i];
        assert(prop(s[k]));
    }
}

/// When the projection drops every element, nothing is collected.
pub proof fn lemma_filter_map_all_none<A, B>(s: Seq<A>, f: spec_fn(A) -> Option<B>)
    requires
        forall|i: int| 0 <= i < s.len() ==> f(#[trigger] s[i]) is None,
    ensures
        s.filter_map(f) == Seq::<B>::empty(),
    decreases s.len(),
{
    if s.len() > 0 {
        let rest = s.drop_last();
        assert forall|i: int| 0 <= i < rest.len() implies f(#[trigger] rest[i]) is None by {
            assert(rest[i] == s[i]);
        }
        lemma_filter_map_all_none(rest, f);
        assert(f(s.last()) is None);
    }
}

/// Whether a domain row carries this status.
pub open spec fn spec_domain_has_status(status: DomainStatus) -> spec_fn(DomainV) -> bool {
    |d: DomainV| d.status == status
}

/// Whether a domain row does not belong to this website and owner.
pub open spec fn spec_domain_outside_website(website_id: Seq<char>, user_id: Seq<char>) -> spec_fn(
    DomainV,
) -> bool {
    |d: DomainV| !(d.website_id == website_id && d.user_id == user_id)
}

impl Domain {
    /// Inserts a domain row with the next id and fresh timestamps.  The
    /// website must exist (the schema's foreign key); an `Active` row whose
    /// name is already `Active` elsewhere violates the unique constraint on
    /// active names.
    pub fn create(
        store: &mut Store,
        website_id: &str,
        user_id: &str,
        domain: &str,
        status: DomainStatus,
    ) -> (r: Result<Domain, DbError>)
        requires
            old(store)@.wf(),
        ensures
            final(store)@.wf(),
            match r {
                Ok(d) => {
                    &&& old(store)@.has_website(website_id@)
                    &&& !(status == DomainStatus::Active && old(store)@.has_domain_with_status(
                        domain@,
                        DomainStatus::Active,
                    ))
                    &&& old(store)@.next_domain_id < i64::MAX
                    &&& d@ == (DomainV {
                        domain_id: old(store)@.next_domain_id,
                        website_id: website_id@,
                        user_id: user_id@,
                        created_at: old(store)@.now,
                        updated_at: old(store)@.now,
                        domain: domain@,
                        status,
                    })
                    &&& final(store)@ == (StoreV {
                        domains: old(store)@.domains.push(d@),
                        next_domain_id: (old(store)@.next_domain_id + 1) as i64,
                        ..old(store)@
                    })
                },
                Err(e) => {
                    &&& *final(store) == *old(store)
                    &&& match e {
                        DbError::Database(SqlState::ForeignKeyViolation, _) => !old(
                            store,
                        )@.has_website(website_id@),
                        DbError::Database(SqlState::UniqueViolation, _) => old(store)@.has_website(
                            website_id@,
                        ) && status == DomainStatus::Active && old(
                            store,
                        )@.has_domain_with_status(domain@, DomainStatus::Active),
                        DbError::Database(SqlState::Other, _) => old(store)@.has_website(
                            website_id@,
                        ) && !(status == DomainStatus::Active && old(
                            store,
                        )@.has_domain_with_status(domain@, DomainStatus::Active)) && old(
                            store,
                        )@.next_domain_id == i64::MAX,
                        _ => false,
                    }
                },
            },
    {
        match find_website_index(store, website_id) {
            Some(_) => {},
            None => {
                return Err(
                    DbError::Database(
                        SqlState::ForeignKeyViolation,
                        String::from_str("violates foreign key constraint"),
                    ),
                );
            },
        }
        if status == DomainStatus::Active {
            let n = store.domains.len();
            let mut i: usize = 0;
            while i < n
                invariant
                    *store == *old(store),
                    store@.wf(),
                    old(store)@.has_website(website_id@),
                    status == DomainStatus::Active,
                    n == store.domains@.len(),
                    i <= n,
                    forall|j: int|
                        0 <= j < i ==> !((#[trigger] store@.domains[j]).domain == domain@
                            && store@.domains[j].status == DomainStatus::Active),
                decreases n - i,
            {
                let d = &store.domains[i];
                let is_active = match d.status {
                    DomainStatus::Active => true,
                    _ => false,
                };
                if is_active && str_eq(d.domain.as_str(), domain) {
                    proof {
                        assert(store@.domains[i as int] == d@);
                        assert(old(store)@.has_domain_with_status(domain@, DomainStatus::Active));
                    }
                    return Err(
                        DbError::Database(
                            SqlState::UniqueViolation,
                            String::from_str("duplicate key value violates unique constraint"),
                        ),
                    );
                }
                i += 1;
            }
        }
        if store.next_domain_id == i64::MAX {
            return Err(
                DbError::Database(SqlState::Other, String::from_str("id sequence exhausted")),
            );
        }
        let row = Domain {
            domain_id: store.next_domain_id,
            website_id: website_id.to_owned(),
            user_id: user_id.to_owned(),
            created_at: store.now,
            updated_at: store.now,
            domain: domain.to_owned(),
            status,
        };
        let result = row.duplicate();
        let ghost old_store = store@;
        store.domains.push(row);
        store.next_domain_id = store.next_domain_id + 1;
        proof {
            assert(store@.domains =~= old_store.domains.push(result@));
            assert(store@.websites =~= old_store.websites);
            assert(store@.pages =~= old_store.pages);
            assert(store@.customizations =~= old_store.customizations);
            assert(store@.static_pages =~= old_store.static_pages);
            assert(store@ == (StoreV {
                domains: old_store.domains.push(result@),
                next_domain_id: (old_store.next_domain_id + 1) as i64,
                ..old_store
            }));
            let last = store@.domains.len() - 1;
            assert forall|a: int, b: int|
                0 <= a < b < store@.domains.len() implies (#[trigger] store@.domains[a]).domain_id
                != (#[trigger] store@.domains[b]).domain_id by {
                if b == last {
                    assert(store@.domains[a] == old_store.domains[a]);
                    assert(old_store.domains[a].domain_id < old_store.next_domain_id);
                }
            }
            assert forall|a: int|
                0 <= a < store@.domains.len() implies 0 < (#[trigger] store@.domains[a]).domain_id
                < store@.next_domain_id by {
                if a < last {
                    assert(store@.domains[a] == old_store.domains[a]);
                }
            }
            assert forall|a: int, b: int|
                0 <= a < store@.domains.len() && 0 <= b < store@.domains.len() && a != b implies !((
            #[trigger] store@.domains[a]).status == DomainStatus::Active && (
            #[trigger] store@.domains[b]).status == DomainStatus::Active && store@.domains[a].domain
                == store@.domains[b].domain) by {
                if a != last && b != last {
                    assert(store@.domains[a] == old_store.domains[a]);
                    assert(store@.domains[b] == old_store.domains[b]);
                } else if status == DomainStatus::Active {
                    let other = if a == last {
                        b
                    } else {
                        a
                    };
                    assert(store@.domains[other] == old_store.domains[other]);
                    assert(!old_store.has_domain_with_status(domain@, DomainStatus::Active));
                }
            }
            assert(store@.wf());
        }
        Ok(result)
    }

    /// Fetches a domain row by id, scoped to its owner.
    pub fn get_for_user(store: &Store, domain_id: i64, user_id: &str) -> (r: Option<Domain>)
        requires
            store@.wf(),
        ensures
            match r {
                Some(d) => {
                    &&& store@.domains.contains(d@)
                    &&& d@.domain_id == domain_id
                    &&& d@.user_id == user_id@
                },
                None => forall|i: int|
                    0 <= i < store@.domains.len() ==> !((#[trigger] store@.domains[i]).domain_id
                        == domain_id && store@.domains[i].user_id == user_id@),
            },
    {
        let n = store.domains.len();
        let mut i: usize = 0;
        while i < n
            invariant
                n == store.domains@.len(),
                i <= n,
                forall|j: int|
                    0 <= j < i ==> !((#[trigger] store@.domains[j]).domain_id == domain_id
                        && store@.domains[j].user_id == user_id@),
            decreases n - i,
        {
            let d = &store.domains[i];
            if d.domain_id == domain_id && str_eq(d.user_id.as_str(), user_id) {
                proof {
                    assert(store@.domains[i as int] == d@);
                    assert(store@.domains.contains(d@));
                }
                return Some(d.duplicate());
            }
            i += 1;
        }
        None
    }

    /// Fetches the first domain row with this name belonging to this
    /// website.
    pub fn get_for_website(store: &Store, domain: &str, website_id: &str) -> (r: Option<Domain>)
        requires
            store@.wf(),
        ensures
            match r {
                Some(d) => {
                    &&& store@.domains.contains(d@)
                    &&& d@.domain == domain@
                    &&& d@.website_id == website_id@
                },
                None => forall|i: int|
                    0 <= i < store@.domains.len() ==> !((#[trigger] store@.domains[i]).domain
                        == domain@ && store@.domains[i].website_id == website_id@),
            },
    {
        let n = store.domains.len();
        let mut i: usize = 0;
        while i < n
            invariant
                n == store.domains@.len(),
                i <= n,
                forall|j: int|
                    0 <= j < i ==> !((#[trigger] store@.domains[j]).domain == domain@
                        && store@.domains[j].website_id == website_id@),
            decreases n - i,
        {
            let d = &store.domains[i];
            if str_eq(d.domain.as_str(), domain) && str_eq(d.website_id.as_str(), website_id) {
                proof {
                    assert(store@.domains[i as int] == d@);
                    assert(store@.domains.contains(d@));
                }
                return Some(d.duplicate());
            }
            i += 1;
        }
        None
    }

    /// Fetches the first domain row with this name.
    pub fn get_by_domain(store: &Store, domain: &str) -> (r: Option<Domain>)
        requires
            store@.wf(),
        ensures
            match r {
                Some(d) => store@.domains.contains(d@) && d@.domain == domain@,
                None => forall|i: int|
                    0 <= i < store@.domains.len() ==> (#[trigger] store@.domains[i]).domain
                        != domain@,
            },
    {
        let n = store.domains.len();
        let mut i: usize = 0;
        while i < n
            invariant
                n == store.domains@.len(),
                i <= n,
                forall|j: int| 0 <= j < i ==> (#[trigger] store@.domains[j]).domain != domain@,
            decreases n - i,
        {
            let d = &store.domains[i];
            if str_eq(d.domain.as_str(), domain) {
                proof {
                    assert(store@.domains[i as int] == d@);
                    assert(store@.domains.contains(d@));
                }
                return Some(d.duplicate());
            }
            i += 1;
        }
        None
    }

    /// Fetches the first domain row with this name and status.
    pub fn get_by_domain_and_status(store: &Store, domain: &str, status: DomainStatus) -> (r:
        Option<Domain>)
        requires
            store@.wf(),
        ensures
            match r {
                Some(d) => {
                    &&& store@.domains.contains(d@)
                    &&& d@.domain == domain@
                    &&& d@.status == status
                    &&& store@.has_domain_with_status(domain@, status)
                },
                None => !store@.has_domain_with_status(domain@, status),
            },
    {
        let n = store.domains.len();
        let mut i: usize = 0;
        while i < n
            invariant
                n == store.domains@.len(),
                i <= n,
                forall|j: int|
                    0 <= j < i ==> !((#[trigger] store@.domains[j]).domain == domain@
                        && store@.domains[j].status == status),
            decreases n - i,
        {
            let d = &store.domains[i];
            if d.status == status && str_eq(d.domain.as_str(), domain) {
                proof {
                    assert(store@.domains[i as int] == d@);
                    assert(store@.domains.contains(d@));
                }
                return Some(d.duplicate());
            }
            i += 1;
        }
        None
    }

    /// Lists every domain row with this status, across all websites, in
    /// table order.
    pub fn list_by_status(store: &Store, status: DomainStatus) -> (r: Vec<Domain>)
        ensures
            r.deep_view() == store@.domains.filter(spec_domain_has_status(status)),
    {
        let ghost pred = spec_domain_has_status(status);
        let mut out: Vec<Domain> = Vec::new();
        let n = store.domains.len();
        let mut i: usize = 0;
        while i < n
            invariant
                n == store.domains@.len(),
                i <= n,
                pred == spec_domain_has_status(status),
                out.deep_view() == store@.domains.take(i as int).filter(pred),
            decreases n - i,
        {
            let d = &store.domains[i];
            proof {
                reveal(Seq::filter);
                assert(store@.domains.take(i as int + 1).drop_last() =~= store@.domains.take(
                    i as int,
                ));
                assert(store@.domains.take(i as int + 1).last() == d@);
            }
            let ghost prev = out.deep_view();
            if d.status == status {
                out.push(d.duplicate());
                proof {
                    assert(out.deep_view() =~= prev.push(d@));
                }
            }
            i += 1;
        }
        proof {
            assert(store@.domains.take(n as int) =~= store@.domains);
        }
        out
    }

    /// Sets the status of a domain row, scoped to its website and owner, and
    /// refreshes its update timestamp.  A write that matches no row surfaces
    /// as `NotFound`; activating a name that is `Active` elsewhere violates
    /// the unique constraint on active names.
    pub fn update(
        store: &mut Store,
        domain_id: i64,
        website_id: &str,
        user_id: &str,
        status: DomainStatus,
    ) -> (r: Result<Domain, DbError>)
        requires
            old(store)@.wf(),
        ensures
            final(store)@.wf(),
            match r {
                Ok(d) => exists|i: int|
                    {
                        &&& 0 <= i < old(store)@.domains.len()
                        &&& (#[trigger] old(store)@.domains[i]).domain_id == domain_id
                        &&& old(store)@.domains[i].website_id == website_id@
                        &&& old(store)@.domains[i].user_id == user_id@
                        &&& d@ == (DomainV {
                            status,
                            updated_at: old(store)@.now,
                            ..old(store)@.domains[i]
                        })
                        &&& final(store)@ == (StoreV {
                            domains: old(store)@.domains.update(i, d@),
                            ..old(store)@
                        })
                    },
                Err(e) => {
                    &&& *final(store) == *old(store)
                    &&& match e {
                        DbError::NotFound => forall|i: int|
                            0 <= i < old(store)@.domains.len() ==> !((
                            #[trigger] old(store)@.domains[i]).domain_id == domain_id && old(
                                store,
                            )@.domains[i].website_id == website_id@ && old(store)@.domains[i].user_id
                                == user_id@),
                        DbError::Database(SqlState::UniqueViolation, _) => status
                            == DomainStatus::Active && exists|i: int, k: int|
                            {
                                &&& 0 <= i < old(store)@.domains.len()
                                &&& 0 <= k < old(store)@.domains.len()
                                &&& k != i
                                &&& (#[trigger] old(store)@.domains[i]).domain_id == domain_id
                                &&& old(store)@.domains[i].website_id == website_id@
                                &&& old(store)@.domains[i].user_id == user_id@
                                &&& (#[trigger] old(store)@.domains[k]).status
                                    == DomainStatus::Active
                                &&& old(store)@.domains[k].domain == old(store)@.domains[i].domain
                            },
                        _ => false,
                    }
                },
            },
    {
        let n = store.domains.len();
        let mut i: usize = 0;
        while i < n
            invariant
                *store == *old(store),
                store@.wf(),
                n == store.domains@.len(),
                i <= n,
                forall|j: int|
                    0 <= j < i ==> !((#[trigger] store@.domains[j]).domain_id == domain_id
                        && store@.domains[j].website_id == website_id@ && store@.domains[j].user_id
                        == user_id@),
            decreases n - i,
        {
            let matches_row = {
                let d = &store.domains[i];
                d.domain_id == domain_id && str_eq(d.website_id.as_str(), website_id) && str_eq(
                    d.user_id.as_str(),
                    user_id,
                )
            };
            if matches_row {
                // activating must not collide with another active row of the
                // same name
                if status == DomainStatus::Active {
                    let m = store.domains.len();
                    let mut j: usize = 0;
                    while j < m
                        invariant
                            *store == *old(store),
                            store@.wf(),
                            m == store.domains@.len(),
                            j <= m,
                            i < m,
                            status == DomainStatus::Active,
                            store@.domains[i as int].domain_id == domain_id,
                            store@.domains[i as int].website_id == website_id@,
                            store@.domains[i as int].user_id == user_id@,
                            forall|k: int|
                                0 <= k < j && k != i ==> !((
                                #[trigger] store@.domains[k]).status == DomainStatus::Active
                                    && store@.domains[k].domain == store@.domains[
                                    i as int].domain),
                        decreases m - j,
                    {
                        if j != i {
                            let other = &store.domains[j];
                            let other_active = match other.status {
                                DomainStatus::Active => true,
                                _ => false,
                            };
                            if other_active && str_eq(
                                other.domain.as_str(),
                                store.domains[i].domain.as_str(),
                            ) {
                                proof {
                                    assert(store@.domains[j as int] == other@);
                                    assert(store@.domains[j as int].status
                                        == DomainStatus::Active);
                                    assert(store@.domains[j as int].domain == store@.domains[
                                        i as int].domain);
                                }
                                return Err(
                                    DbError::Database(
                                        SqlState::UniqueViolation,
                                        String::from_str(
                                            "duplicate key value violates unique constraint",
                                        ),
                                    ),
                                );
                            }
                        }
                        j += 1;
                    }
                }
                let ghost old_store = store@;
                let now = store.now;
                let mut new_row = store.domains[i].duplicate();
                new_row.status = status;
                new_row.updated_at = now;
                let result = new_row.duplicate();
                store.domains[i] = new_row;
                proof {
                    assert(old_store == old(store)@);
                    assert(old_store.domains[i as int].domain_id == domain_id
                        && old_store.domains[i as int].website_id == website_id@
                        && old_store.domains[i as int].user_id == user_id@);
                    assert(result@ == (DomainV {
                        status,
                        updated_at: old_store.now,
                        ..old_store.domains[i as int]
                    }));
                    assert(store@.domains =~= old_store.domains.update(i as int, result@));
                    assert(store@.websites =~= old_store.websites);
                    assert(store@.pages =~= old_store.pages);
                    assert(store@.customizations =~= old_store.customizations);
                    assert(store@.static_pages =~= old_store.static_pages);
                    assert(store@ == (StoreV {
                        domains: old_store.domains.update(i as int, result@),
                        ..old_store
                    }));
                    assert forall|a: int, b: int|
                        0 <= a < b < store@.domains.len() implies (
                    #[trigger] store@.domains[a]).domain_id != (
                    #[trigger] store@.domains[b]).domain_id by {
                        assert(old_store.domains[a].domain_id != old_store.domains[b].domain_id);
                    }
                    assert forall|a: int|
                        0 <= a < store@.domains.len() implies 0 < (
                    #[trigger] store@.domains[a]).domain_id < store@.next_domain_id by {
                        assert(old_store.domains[a].domain_id == store@.domains[a].domain_id);
                    }
                    assert forall|a: int, b: int|
                        0 <= a < store@.domains.len() && 0 <= b < store@.domains.len() && a != b
                        implies !((#[trigger] store@.domains[a]).status == DomainStatus::Active
                        && (#[trigger] store@.domains[b]).status == DomainStatus::Active
                        && store@.domains[a].domain == store@.domains[b].domain) by {
                        if a != i as int && b != i as int {
                            assert(store@.domains[a] == old_store.domains[a]);
                            assert(store@.domains[b] == old_store.domains[b]);
                        }
                    }
                    assert(store@.wf());
                }
                return Ok(result);
            }
            i += 1;
        }
        Err(DbError::NotFound)
    }

    /// Deletes every domain row of a website, scoped to its owner.
    pub fn delete_for_website(store: &mut Store, website_id: &str, user_id: &str) -> (r: Result<
        (),
        DbError,
    >)
        requires
            old(store)@.wf(),
        ensures
            final(store)@.wf(),
            r is Ok,
            final(store)@ == (StoreV {
                domains: old(store)@.domains.filter(
                    spec_domain_outside_website(website_id@, user_id@),
                ),
                ..old(store)@
            }),
    {
        let ghost pred = spec_domain_outside_website(website_id@, user_id@);
        let mut kept: Vec<Domain> = Vec::new();
        let n = store.domains.len();
        let mut i: usize = 0;
        while i < n
            invariant
                *store == *old(store),
                store@.wf(),
                n == store.domains@.len(),
                i <= n,
                pred == spec_domain_outside_website(website_id@, user_id@),
                kept.deep_view() == store@.domains.take(i as int).filter(pred),
            decreases n - i,
        {
            let d = &store.domains[i];
            proof {
                reveal(Seq::filter);
                assert(store@.domains.take(i as int + 1).drop_last() =~= store@.domains.take(
                    i as int,
                ));
                assert(store@.domains.take(i as int + 1).last() == d@);
            }
            let ghost prev = kept.deep_view();
            if !(str_eq(d.website_id.as_str(), website_id) && str_eq(
                d.user_id.as_str(),
                user_id,
            )) {
                kept.push(d.duplicate());
                proof {
                    assert(kept.deep_view() =~= prev.push(d@));
                }
            }
            i += 1;
        }
        let ghost old_store = store@;
        store.domains = kept;
        proof {
            assert(old_store.domains.take(n as int) =~= old_store.domains);
            assert(store@ == (StoreV { domains: old_store.domains.filter(pred), ..old_store }));
            lemma_filter_pairwise(
                old_store.domains,
                pred,
                |x: DomainV, y: DomainV| x.domain_id == y.domain_id,
            );
            lemma_filter_pairwise(
                old_store.domains,
                pred,
                |x: DomainV, y: DomainV| x.status == DomainStatus::Active && y.status
                    == DomainStatus::Active && x.domain == y.domain,
            );
            lemma_filter_elementwise(
                old_store.domains,
                pred,
                |x: DomainV| 0 < x.domain_id < old_store.next_domain_id,
            );
            assert(store@.wf());
        }
        Ok(())
    }

    /// Deletes one domain row by id, scoped to its website and owner.  A
    /// delete that matches no row surfaces as `NotFound`.
    pub fn delete(store: &mut Store, domain_id: i64, website_id: &str, user_id: &str) -> (r: Result<
        (),
        DbError,
    >)
        requires
            old(store)@.wf(),
        ensures
            final(store)@.wf(),
            match r {
                Ok(()) => exists|i: int|
                    {
                        &&& 0 <= i < old(store)@.domains.len()
                        &&& (#[trigger] old(store)@.domains[i]).domain_id == domain_id
                        &&& old(store)@.domains[i].website_id == website_id@
                        &&& old(store)@.domains[i].user_id == user_id@
                        &&& final(store)@ == (StoreV {
                            domains: old(store)@.domains.remove(i),
                            ..old(store)@
                        })
                    },
                Err(e) => {
                    &&& *final(store) == *old(store)
                    &&& e matches DbError::NotFound
                    &&& forall|i: int|
                        0 <= i < old(store)@.domains.len() ==> !((
                        #[trigger] old(store)@.domains[i]).domain_id == domain_id && old(
                            store,
                        )@.domains[i].website_id == website_id@ && old(store)@.domains[i].user_id
                            == user_id@)
                },
            },
    {
        let n = store.domains.len();
        let mut i: usize = 0;
        while i < n
            invariant
                *store == *old(store),
                store@.wf(),
                n == store.domains@.len(),
                i <= n,
                forall|j: int|
                    0 <= j < i ==> !((#[trigger] store@.domains[j]).domain_id == domain_id
                        && store@.domains[j].website_id == website_id@ && store@.domains[j].user_id
                        == user_id@),
            decreases n - i,
        {
            let matches_row = {
                let d = &store.domains[i];
                d.domain_id == domain_id && str_eq(d.website_id.as_str(), website_id) && str_eq(
                    d.user_id.as_str(),
                    user_id,
                )
            };
            if matches_row {
                let ghost old_store = store@;
                store.domains.remove(i);
                proof {
                    assert(old_store == old(store)@);
                    assert(old_store.domains[i as int].domain_id == domain_id
                        && old_store.domains[i as int].website_id == website_id@
                        && old_store.domains[i as int].user_id == user_id@);
                    assert(store@.domains =~= old_store.domains.remove(i as int));
                    assert(store@.websites =~= old_store.websites);
                    assert(store@.pages =~= old_store.pages);
                    assert(store@.customizations =~= old_store.customizations);
                    assert(store@.static_pages =~= old_store.static_pages);
                    assert(store@ == (StoreV {
                        domains: old_store.domains.remove(i as int),
                        ..old_store
                    }));
                    assert forall|a: int, b: int|
                        0 <= a < b < store@.domains.len() implies (
                    #[trigger] store@.domains[a]).domain_id != (
                    #[trigger] store@.domains[b]).domain_id by {
                        let a0 = if a < i as int {
                            a
                        } else {
                            a + 1
                        };
                        let b0 = if b < i as int {
                            b
                        } else {
                            b + 1
                        };
                        assert(store@.domains[a] == old_store.domains[a0]);
                        assert(store@.domains[b] == old_store.domains[b0]);
                        assert(old_store.domains[a0].domain_id != old_store.domains[b0].domain_id);
                    }
                    assert forall|a: int|
                        0 <= a < store@.domains.len() implies 0 < (
                    #[trigger] store@.domains[a]).domain_id < store@.next_domain_id by {
                        let a0 = if a < i as int {
                            a
                        } else {
                            a + 1
                        };
                        assert(store@.domains[a] == old_store.domains[a0]);
                    }
                    assert forall|a: int, b: int|
                        0 <= a < store@.domains.len() && 0 <= b < store@.domains.len() && a != b
                        implies !((#[trigger] store@.domains[a]).status == DomainStatus::Active
                        && (#[trigger] store@.domains[b]).status == DomainStatus::Active
                        && store@.domains[a].domain == store@.domains[b].domain) by {
                        let a0 = if a < i as int {
                            a
                        } else {
                            a + 1
                        };
                        let b0 = if b < i as int {
                            b
                        } else {
                            b + 1
                        };
                        assert(store@.domains[a] == old_store.domains[a0]);
                        assert(store@.domains[b] == old_store.domains[b0]);
                        assert(!(old_store.domains[a0].status == DomainStatus::Active
                            && old_store.domains[b0].status == DomainStatus::Active
                            && old_store.domains[a0].domain == old_store.domains[b0].domain));
                    }
                    assert(store@.wf());
                }
                return Ok(());
            }
            i += 1;
        }
        Err(DbError::NotFound)
    }
}

/// Two domain rows with one id are one row.
pub proof fn lemma_domain_ids_unique(s: StoreV, i: int, j: int)
    requires
        s.wf(),
        0 <= i < s.domains.len(),
        0 <= j < s.domains.len(),
        s.domains[i].domain_id == s.domains[j].domain_id,
    ensures
        i == j,
{
    if i < j {
        assert(s.domains[i].domain_id != s.domains[j].domain_id);
    } else if j < i {
        assert(s.domains[j].domain_id != s.domains[i].domain_id);
    }
}

/// Two page rows with one id are one row.
pub proof fn lemma_page_ids_unique(s: StoreV, i: int, j: int)
    requires
        s.wf(),
        0 <= i < s.pages.len(),
        0 <= j < s.pages.len(),
        s.pages[i].page_id == s.pages[j].page_id,
    ensures
        i == j,
{
    if i < j {
        assert(s.pages[i].page_id != s.pages[j].page_id);
    } else if j < i {
        assert(s.pages[j].page_id != s.pages[i].page_id);
    }
}

/// Whether a page row does not belong to this website and owner.
pub open spec fn spec_page_outside_website(website_id: Seq<char>, user_id: Seq<char>) -> spec_fn(
    PageV,
) -> bool {
    |p: PageV| !(p.website_id == website_id && p.user_id == user_id)
}

/// Whether a page row belongs to this website.
pub open spec fn spec_page_in_website(website_id: Seq<char>) -> spec_fn(PageV) -> bool {
    |p: PageV| p.website_id == website_id
}

/// The row that results from a page update: each given field replaces the
/// stored one, and the update timestamp is refreshed.
pub open spec fn spec_updated_page(
    orig: PageV,
    page_type: Option<PageType>,
    content_id: Option<Seq<char>>,
    title: Option<Seq<char>>,
    is_home_page: Option<bool>,
    path: Option<Seq<char>>,
    now: i64,
) -> PageV {
    PageV {
        page_type: match page_type {
            Some(t) => t,
            None => orig.page_type,
        },
        content_id: match content_id {
            Some(c) => c,
            None => orig.content_id,
        },
        title: match title {
            Some(t) => t,
            None => orig.title,
        },
        is_home_page: match is_home_page {
            Some(h) => h,
            None => orig.is_home_page,
        },
        path: match path {
            Some(p) => p,
            None => orig.path,
        },
        updated_at: now,
        ..orig
    }
}

/// The window of a listing: `limit` elements starting at `offset`, clipped
/// to the sequence.
pub open spec fn spec_slice<T>(s: Seq<T>, limit: int, offset: int) -> Seq<T> {
    let start = if offset <= s.len() {
        offset
    } else {
        s.len() as int
    };
    let end = if offset + limit <= s.len() {
        offset + limit
    } else {
        s.len() as int
    };
    s.subrange(start, end)
}

impl Page {
    /// Inserts a page row with the next id and fresh timestamps.  The
    /// website must exist (the schema's foreign key).
    #[allow(clippy::too_many_arguments)]
    pub fn create(
        store: &mut Store,
        website_id: &str,
        user_id: &str,
        page_type: PageType,
        content_id: &str,
        title: &str,
        is_home_page: bool,
        path: &str,
    ) -> (r: Result<Page, DbError>)
        requires
            old(store)@.wf(),
        ensures
            final(store)@.wf(),
            match r {
                Ok(p) => {
                    &&& old(store)@.has_website(website_id@)
                    &&& old(store)@.next_page_id < i64::MAX
                    &&& p@ == (PageV {
                        page_id: old(store)@.next_page_id,
                        website_id: website_id@,
                        user_id: user_id@,
                        created_at: old(store)@.now,
                        updated_at: old(store)@.now,
                        page_type,
                        content_id: content_id@,
                        title: title@,
                        is_home_page,
                        path: path@,
                    })
                    &&& final(store)@ == (StoreV {
                        pages: old(store)@.pages.push(p@),
                        next_page_id: (old(store)@.next_page_id + 1) as i64,
                        ..old(store)@
                    })
                },
                Err(e) => {
                    &&& *final(store) == *old(store)
                    &&& match e {
                        DbError::Database(SqlState::ForeignKeyViolation, _) => !old(
                            store,
                        )@.has_website(website_id@),
                        DbError::Database(SqlState::Other, _) => old(store)@.has_website(
                            website_id@,
                        ) && old(store)@.next_page_id == i64::MAX,
                        _ => false,
                    }
                },
            },
    {
        match find_website_index(store, website_id) {
            Some(_) => {},
            None => {
                return Err(
                    DbError::Database(
                        SqlState::ForeignKeyViolation,
                        String::from_str("violates foreign key constraint"),
                    ),
                );
            },
        }
        if store.next_page_id == i64::MAX {
            return Err(
                DbError::Database(SqlState::Other, String::from_str("id sequence exhausted")),
            );
        }
        let row = Page {
            page_id: store.next_page_id,
            website_id: website_id.to_owned(),
            user_id: user_id.to_owned(),
            created_at: store.now,
            updated_at: store.now,
            page_type,
            content_id: content_id.to_owned(),
            title: title.to_owned(),
            is_home_page,
            path: path.to_owned(),
        };
        let result = row.duplicate();
        let ghost old_store = store@;
        store.pages.push(row);
        store.next_page_id = store.next_page_id + 1;
        proof {
            assert(old_store.wf());
            assert(store@.pages =~= old_store.pages.push(result@));
            assert(store@.websites =~= old_store.websites);
            assert(store@.domains =~= old_store.domains);
            assert(store@.customizations =~= old_store.customizations);
            assert(store@.static_pages =~= old_store.static_pages);
            assert(store@ == (StoreV {
                pages: old_store.pages.push(result@),
                next_page_id: (old_store.next_page_id + 1) as i64,
                ..old_store
            }));
            let last = store@.pages.len() - 1;
            assert forall|a: int, b: int|
                0 <= a < b < store@.pages.len() implies (#[trigger] store@.pages[a]).page_id != (
            #[trigger] store@.pages[b]).page_id by {
                if b == last {
                    assert(store@.pages[a] == old_store.pages[a]);
                    assert(old_store.pages[a].page_id < old_store.next_page_id);
                }
            }
            assert forall|a: int|
                0 <= a < store@.pages.len() implies 0 < (#[trigger] store@.pages[a]).page_id
                < store@.next_page_id by {
                if a < last {
                    assert(store@.pages[a] == old_store.pages[a]);
                }
            }
            assert(store@.wf());
        }
        Ok(result)
    }

    /// Fetches a page row by id.
    pub fn get(store: &Store, page_id: i64) -> (r: Option<Page>)
        requires
            store@.wf(),
        ensures
            match r {
                Some(p) => store@.pages.contains(p@) && p@.page_id == page_id,
                None => forall|i: int|
                    0 <= i < store@.pages.len() ==> (#[trigger] store@.pages[i]).page_id != page_id,
            },
    {
        let n = store.pages.len();
        let mut i: usize = 0;
        while i < n
            invariant
                n == store.pages@.len(),
                i <= n,
                forall|j: int| 0 <= j < i ==> (#[trigger] store@.pages[j]).page_id != page_id,
            decreases n - i,
        {
            let p = &store.pages[i];
            if p.page_id == page_id {
                proof {
                    assert(store@.pages[i as int] == p@);
                    assert(store@.pages.contains(p@));
                }
                return Some(p.duplicate());
            }
            i += 1;
        }
        None
    }

    /// Fetches the first page row of a website at this path.
    pub fn get_by_path(store: &Store, website_id: &str, path: &str) -> (r: Option<Page>)
        requires
            store@.wf(),
        ensures
            match r {
                Some(p) => store@.pages.contains(p@) && p@.website_id == website_id@ && p@.path
                    == path@,
                None => forall|i: int|
                    0 <= i < store@.pages.len() ==> !((#[trigger] store@.pages[i]).website_id
                        == website_id@ && store@.pages[i].path == path@),
            },
    {
        let n = store.pages.len();
        let mut i: usize = 0;
        while i < n
            invariant
                n == store.pages@.len(),
                i <= n,
                forall|j: int|
                    0 <= j < i ==> !((#[trigger] store@.pages[j]).website_id == website_id@
                        && store@.pages[j].path == path@),
            decreases n - i,
        {
            let p = &store.pages[i];
            if str_eq(p.website_id.as_str(), website_id) && str_eq(p.path.as_str(), path) {
                proof {
                    assert(store@.pages[i as int] == p@);
                    assert(store@.pages.contains(p@));
                }
                return Some(p.duplicate());
            }
            i += 1;
        }
        None
    }

    /// Fetches the first page row of a website that carries the home-page
    /// flag.
    pub fn get_home_page(store: &Store, website_id: &str) -> (r: Option<Page>)
        requires
            store@.wf(),
        ensures
            match r {
                Some(p) => {
                    &&& store@.pages.contains(p@)
                    &&& p@.website_id == website_id@
                    &&& p@.is_home_page
                    &&& exists|i: int|
                        {
                            &&& 0 <= i < store@.pages.len()
                            &&& (#[trigger] store@.pages[i]) == p@
                            &&& forall|j: int|
                                0 <= j < i ==> !((#[trigger] store@.pages[j]).website_id
                                    == website_id@ && store@.pages[j].is_home_page)
                        }
                },
                None => forall|i: int|
                    0 <= i < store@.pages.len() ==> !((#[trigger] store@.pages[i]).website_id
                        == website_id@ && store@.pages[i].is_home_page),
            },
    {
        let n = store.pages.len();
        let mut i: usize = 0;
        while i < n
            invariant
                n == store.pages@.len(),
                i <= n,
                forall|j: int|
                    0 <= j < i ==> !((#[trigger] store@.pages[j]).website_id == website_id@
                        && store@.pages[j].is_home_page),
            decreases n - i,
        {
            let p = &store.pages[i];
            if p.is_home_page && str_eq(p.website_id.as_str(), website_id) {
                proof {
                    assert(store@.pages[i as int] == p@);
                    assert(store@.pages.contains(p@));
                }
                return Some(p.duplicate());
            }
            i += 1;
        }
        None
    }

    /// Lists page rows, optionally scoped to one website, windowed by
    /// `limit` and `offset`, together with the total count of matching rows.
    /// The count is computed over the same filter as the listed window.
    pub fn list(store: &Store, website_id: Option<&str>, limit: u64, offset: u64) -> (r: (
        Vec<Page>,
        i64,
    ))
        requires
            store@.wf(),
            store@.pages.len() < 0x7fff_ffff_ffff_ffff,
        ensures
            ({
                let filtered = match website_id {
                    Some(w) => store@.pages.filter(spec_page_in_website(w@)),
                    None => store@.pages,
                };
                &&& r.0.deep_view() == spec_slice(filtered, limit as int, offset as int)
                &&& r.1 == filtered.len()
            }),
    {
        let ghost filtered_spec = match website_id {
            Some(w) => store@.pages.filter(spec_page_in_website(w@)),
            None => store@.pages,
        };
        let mut filtered: Vec<Page> = Vec::new();
        let n = store.pages.len();
        let mut i: usize = 0;
        while i < n
            invariant
                n == store.pages@.len(),
                i <= n,
                filtered_spec == (match website_id {
                    Some(w) => store@.pages.filter(spec_page_in_website(w@)),
                    None => store@.pages,
                }),
                filtered.deep_view() == (match website_id {
                    Some(w) => store@.pages.take(i as int).filter(spec_page_in_website(w@)),
                    None => store@.pages.take(i as int),
                }),
            decreases n - i,
        {
            let p = &store.pages[i];
            proof {
                reveal(Seq::filter);
                assert(store@.pages.take(i as int + 1).drop_last() =~= store@.pages.take(i as int));
                assert(store@.pages.take(i as int + 1).last() == p@);
            }
            let ghost prev = filtered.deep_view();
            let keep = match website_id {
                Some(w) => str_eq(p.website_id.as_str(), w),
                None => true,
            };
            if keep {
                filtered.push(p.duplicate());
                proof {
                    assert(filtered.deep_view() =~= prev.push(p@));
                }
            }
            i += 1;
        }
        proof {
            assert(store@.pages.take(n as int) =~= store@.pages);
        }
        let total = filtered.len();
        let start: usize = if offset >= total as u64 {
            total
        } else {
            offset as usize
        };
        let end: usize = if offset >= total as u64 {
            total
        } else {
            let remaining: u64 = total as u64 - offset;
            if limit >= remaining {
                total
            } else {
                (offset + limit) as usize
            }
        };
        let mut out: Vec<Page> = Vec::new();
        let mut k: usize = start;
        while k < end
            invariant
                start <= k <= end <= filtered@.len(),
                filtered.deep_view() == filtered_spec,
                out.deep_view() == filtered_spec.subrange(start as int, k as int),
            decreases end - k,
        {
            let ghost prev = out.deep_view();
            out.push(filtered[k].duplicate());
            proof {
                assert(filtered@[k as int]@ == filtered_spec[k as int]);
                assert(out.deep_view() =~= prev.push(filtered_spec[k as int]));
                assert(prev.push(filtered_spec[k as int]) =~= filtered_spec.subrange(
                    start as int,
                    k as int + 1,
                ));
            }
            k += 1;
        }
        proof {
            if start == end {
                assert(out.deep_view() =~= filtered_spec.subrange(start as int, end as int));
            }
            assert(out.deep_view() =~= spec_slice(filtered_spec, limit as int, offset as int));
        }
        (out, total as i64)
    }

    /// Updates a page row, scoped to its owner: each given field replaces
    /// the stored one, and the update timestamp is refreshed.  A write that
    /// matches no row surfaces as `NotFound`.
    #[allow(clippy::too_many_arguments)]
    pub fn update(
        store: &mut Store,
        page_id: i64,
        user_id: &str,
        page_type: Option<PageType>,
        content_id: Option<String>,
        title: Option<String>,
        is_home_page: Option<bool>,
        path: Option<String>,
    ) -> (r: Result<Page, DbError>)
        requires
            old(store)@.wf(),
        ensures
            final(store)@.wf(),
            match r {
                Ok(p) => exists|i: int|
                    {
                        &&& 0 <= i < old(store)@.pages.len()
                        &&& (#[trigger] old(store)@.pages[i]).page_id == page_id
                        &&& old(store)@.pages[i].user_id == user_id@
                        &&& p@ == spec_updated_page(
                            old(store)@.pages[i],
                            page_type,
                            content_id.deep_view(),
                            title.deep_view(),
                            is_home_page,
                            path.deep_view(),
                            old(store)@.now,
                        )
                        &&& final(store)@ == (StoreV {
                            pages: old(store)@.pages.update(i, p@),
                            ..old(store)@
                        })
                    },
                Err(e) => {
                    &&& *final(store) == *old(store)
                    &&& e matches DbError::NotFound
                    &&& forall|i: int|
                        0 <= i < old(store)@.pages.len() ==> !((
                        #[trigger] old(store)@.pages[i]).page_id == page_id && old(
                            store,
                        )@.pages[i].user_id == user_id@)
                },
            },
    {
        let n = store.pages.len();
        let mut i: usize = 0;
        while i < n
            invariant
                *store == *old(store),
                store@.wf(),
                n == store.pages@.len(),
                i <= n,
                forall|j: int|
                    0 <= j < i ==> !((#[trigger] store@.pages[j]).page_id == page_id
                        && store@.pages[j].user_id == user_id@),
            decreases n - i,
        {
            let matches_row = {
                let p = &store.pages[i];
                p.page_id == page_id && str_eq(p.user_id.as_str(), user_id)
            };
            if matches_row {
                let ghost old_store = store@;
                let now = store.now;
                let mut new_row = store.pages[i].duplicate();
                if let Some(t) = page_type {
                    new_row.page_type = t;
                }
                if let Some(c) = &content_id {
                    new_row.content_id = c.clone();
                }
                if let Some(t) = &title {
                    new_row.title = t.clone();
                }
                if let Some(h) = is_home_page {
                    new_row.is_home_page = h;
                }
                if let Some(pa) = &path {
                    new_row.path = pa.clone();
                }
                new_row.updated_at = now;
                let result = new_row.duplicate();
                store.pages[i] = new_row;
                proof {
                    assert(old_store == old(store)@);
                    assert(old_store.pages[i as int].page_id == page_id
                        && old_store.pages[i as int].user_id == user_id@);
                    assert(store@.pages =~= old_store.pages.update(i as int, result@));
                    assert(store@.websites =~= old_store.websites);
                    assert(store@.domains =~= old_store.domains);
                    assert(store@.customizations =~= old_store.customizations);
                    assert(store@.static_pages =~= old_store.static_pages);
                    assert(store@ == (StoreV {
                        pages: old_store.pages.update(i as int, result@),
                        ..old_store
                    }));
                    assert forall|a: int, b: int|
                        0 <= a < b < store@.pages.len() implies (
                    #[trigger] store@.pages[a]).page_id != (#[trigger] store@.pages[b]).page_id by {
                        assert(old_store.pages[a].page_id != old_store.pages[b].page_id);
                    }
                    assert forall|a: int|
                        0 <= a < store@.pages.len() implies 0 < (
                    #[trigger] store@.pages[a]).page_id < store@.next_page_id by {
                        assert(old_store.pages[a].page_id == store@.pages[a].page_id);
                    }
                    assert(store@.wf());
                }
                return Ok(result);
            }
            i += 1;
        }
        Err(DbError::NotFound)
    }

    /// Deletes one page row by id, scoped to its owner.  A delete that
    /// matches no row surfaces as `NotFound`.
    pub fn delete(store: &mut Store, page_id: i64, user_id: &str) -> (r: Result<(), DbError>)
        requires
            old(store)@.wf(),
        ensures
            final(store)@.wf(),
            match r {
                Ok(()) => exists|i: int|
                    {
                        &&& 0 <= i < old(store)@.pages.len()
                        &&& (#[trigger] old(store)@.pages[i]).page_id == page_id
                        &&& old(store)@.pages[i].user_id == user_id@
                        &&& final(store)@ == (StoreV {
                            pages: old(store)@.pages.remove(i),
                            ..old(store)@
                        })
                    },
                Err(e) => {
                    &&& *final(store) == *old(store)
                    &&& e matches DbError::NotFound
                    &&& forall|i: int|
                        0 <= i < old(store)@.pages.len() ==> !((
                        #[trigger] old(store)@.pages[i]).page_id == page_id && old(
                            store,
                        )@.pages[i].user_id == user_id@)
                },
            },
    {
        let n = store.pages.len();
        let mut i: usize = 0;
        while i < n
            invariant
                *store == *old(store),
                store@.wf(),
                n == store.pages@.len(),
                i <= n,
                forall|j: int|
                    0 <= j < i ==> !((#[trigger] store@.pages[j]).page_id == page_id
                        && store@.pages[j].user_id == user_id@),
            decreases n - i,
        {
            let matches_row = {
                let p = &store.pages[i];
                p.page_id == page_id && str_eq(p.user_id.as_str(), user_id)
            };
            if matches_row {
                let ghost old_store = store@;
                store.pages.remove(i);
                proof {
                    assert(old_store == old(store)@);
                    assert(old_store.pages[i as int].page_id == page_id
                        && old_store.pages[i as int].user_id == user_id@);
                    assert(store@.pages =~= old_store.pages.remove(i as int));
                    assert(store@.websites =~= old_store.websites);
                    assert(store@.domains =~= old_store.domains);
                    assert(store@.customizations =~= old_store.customizations);
                    assert(store@.static_pages =~= old_store.static_pages);
                    assert(store@ == (StoreV {
                        pages: old_store.pages.remove(i as int),
                        ..old_store
                    }));
                    assert forall|a: int, b: int|
                        0 <= a < b < store@.pages.len() implies (
                    #[trigger] store@.pages[a]).page_id != (#[trigger] store@.pages[b]).page_id by {
                        let a0 = if a < i as int {
                            a
                        } else {
                            a + 1
                        };
                        let b0 = if b < i as int {
                            b
                        } else {
                            b + 1
                        };
                        assert(store@.pages[a] == old_store.pages[a0]);
                        assert(store@.pages[b] == old_store.pages[b0]);
                        assert(old_store.pages[a0].page_id != old_store.pages[b0].page_id);
                    }
                    assert forall|a: int|
                        0 <= a < store@.pages.len() implies 0 < (
                    #[trigger] store@.pages[a]).page_id < store@.next_page_id by {
                        let a0 = if a < i as int {
                            a
                        } else {
                            a + 1
                        };
                        assert(store@.pages[a] == old_store.pages[a0]);
                    }
                    assert(store@.wf());
                }
                return Ok(());
            }
            i += 1;
        }
        Err(DbError::NotFound)
    }

    /// Deletes every page row of a website, scoped to its owner.
    pub fn delete_for_website(store: &mut Store, website_id: &str, user_id: &str) -> (r: Result<
        (),
        DbError,
    >)
        requires
            old(store)@.wf(),
        ensures
            final(store)@.wf(),
            r is Ok,
            final(store)@ == (StoreV {
                pages: old(store)@.pages.filter(spec_page_outside_website(website_id@, user_id@)),
                ..old(store)@
            }),
    {
        let ghost pred = spec_page_outside_website(website_id@, user_id@);
        let mut kept: Vec<Page> = Vec::new();
        let n = store.pages.len();
        let mut i: usize = 0;
        while i < n
            invariant
                *store == *old(store),
                store@.wf(),
                n == store.pages@.len(),
                i <= n,
                pred == spec_page_outside_website(website_id@, user_id@),
                kept.deep_view() == store@.pages.take(i as int).filter(pred),
            decreases n - i,
        {
            let p = &store.pages[i];
            proof {
                reveal(Seq::filter);
                assert(store@.pages.take(i as int + 1).drop_last() =~= store@.pages.take(i as int));
                assert(store@.pages.take(i as int + 1).last() == p@);
            }
            let ghost prev = kept.deep_view();
            if !(str_eq(p.website_id.as_str(), website_id) && str_eq(
                p.user_id.as_str(),
                user_id,
            )) {
                kept.push(p.duplicate());
                proof {
                    assert(kept.deep_view() =~= prev.push(p@));
                }
            }
            i += 1;
        }
        let ghost old_store = store@;
        store.pages = kept;
        proof {
            assert(old_store.pages.take(n as int) =~= old_store.pages);
            assert(store@ == (StoreV { pages: old_store.pages.filter(pred), ..old_store }));
            lemma_filter_pairwise(
                old_store.pages,
                pred,
                |x: PageV, y: PageV| x.page_id == y.page_id,
            );
            lemma_filter_elementwise(
                old_store.pages,
                pred,
                |x: PageV| 0 < x.page_id < old_store.next_page_id,
            );
            assert(store@.wf());
        }
        Ok(())
    }
}

impl Customization {
    /// Inserts the customization row of a website, one-to-one with it.  The
    /// website must exist; a second row for the same website violates the
    /// unique constraint.
    pub fn create(store: &mut Store, website_id: &str, user_id: &str) -> (r: Result<
        Customization,
        DbError,
    >)
        requires
            old(store)@.wf(),
        ensures
            final(store)@.wf(),
            match r {
                Ok(c) => {
                    &&& old(store)@.has_website(website_id@)
                    &&& forall|i: int|
                        0 <= i < old(store)@.customizations.len() ==> (
                        #[trigger] old(store)@.customizations[i]).website_id != website_id@
                    &&& c@ == (CustomizationV {
                        website_id: website_id@,
                        user_id: user_id@,
                        primary_color: None,
                        secondary_color: None,
                        logo_image_url: None,
                    })
                    &&& final(store)@ == (StoreV {
                        customizations: old(store)@.customizations.push(c@),
                        ..old(store)@
                    })
                },
                Err(e) => {
                    &&& *final(store) == *old(store)
                    &&& match e {
                        DbError::Database(SqlState::ForeignKeyViolation, _) => !old(
                            store,
                        )@.has_website(website_id@),
                        DbError::Database(SqlState::UniqueViolation, _) => old(store)@.has_website(
                            website_id@,
                        ) && exists|i: int|
                            0 <= i < old(store)@.customizations.len() && (
                            #[trigger] old(store)@.customizations[i]).website_id == website_id@,
                        _ => false,
                    }
                },
            },
    {
        match find_website_index(store, website_id) {
            Some(_) => {},
            None => {
                return Err(
                    DbError::Database(
                        SqlState::ForeignKeyViolation,
                        String::from_str("violates foreign key constraint"),
                    ),
                );
            },
        }
        let n = store.customizations.len();
        let mut i: usize = 0;
        while i < n
            invariant
                *store == *old(store),
                store@.wf(),
                old(store)@.has_website(website_id@),
                n == store.customizations@.len(),
                i <= n,
                forall|j: int|
                    0 <= j < i ==> (#[trigger] store@.customizations[j]).website_id != website_id@,
            decreases n - i,
        {
            if str_eq(store.customizations[i].website_id.as_str(), website_id) {
                proof {
                    assert(store@.customizations[i as int].website_id == website_id@);
                }
                return Err(
                    DbError::Database(
                        SqlState::UniqueViolation,
                        String::from_str("duplicate key value violates unique constraint"),
                    ),
                );
            }
            i += 1;
        }
        let row = Customization {
            website_id: website_id.to_owned(),
            user_id: user_id.to_owned(),
            primary_color: None,
            secondary_color: None,
            logo_image_url: None,
        };
        let result = row.duplicate();
        let ghost old_store = store@;
        store.customizations.push(row);
        proof {
            assert(old_store.wf());
            assert(store@.customizations =~= old_store.customizations.push(result@));
            assert(store@.websites =~= old_store.websites);
            assert(store@.domains =~= old_store.domains);
            assert(store@.pages =~= old_store.pages);
            assert(store@.static_pages =~= old_store.static_pages);
            assert(store@ == (StoreV {
                customizations: old_store.customizations.push(result@),
                ..old_store
            }));
            let last = store@.customizations.len() - 1;
            assert forall|a: int, b: int|
                0 <= a < b < store@.customizations.len() implies (
            #[trigger] store@.customizations[a]).website_id != (
            #[trigger] store@.customizations[b]).website_id by {
                if b == last {
                    assert(store@.customizations[a] == old_store.customizations[a]);
                }
            }
            assert(store@.wf());
        }
        Ok(result)
    }

    /// Fetches the customization row of a website.
    pub fn get(store: &Store, website_id: &str) -> (r: Option<Customization>)
        requires
            store@.wf(),
        ensures
            match r {
                Some(c) => store@.customizations.contains(c@) && c@.website_id == website_id@,
                None => forall|i: int|
                    0 <= i < store@.customizations.len() ==> (
                    #[trigger] store@.customizations[i]).website_id != website_id@,
            },
    {
        let n = store.customizations.len();
        let mut i: usize = 0;
        while i < n
            invariant
                n == store.customizations@.len(),
                i <= n,
                forall|j: int|
                    0 <= j < i ==> (#[trigger] store@.customizations[j]).website_id != website_id@,
            decreases n - i,
        {
            let c = &store.customizations[i];
            if str_eq(c.website_id.as_str(), website_id) {
                proof {
                    assert(store@.customizations[i as int] == c@);
                    assert(store@.customizations.contains(c@));
                }
                return Some(c.duplicate());
            }
            i += 1;
        }
        None
    }

    /// Fetches the customization row of a website, scoped to its owner.
    pub fn get_for_user(store: &Store, website_id: &str, user_id: &str) -> (r: Option<
        Customization,
    >)
        requires
            store@.wf(),
        ensures
            match r {
                Some(c) => store@.customizations.contains(c@) && c@.website_id == website_id@
                    && c@.user_id == user_id@,
                None => forall|i: int|
                    0 <= i < store@.customizations.len() ==> !((
                    #[trigger] store@.customizations[i]).website_id == website_id@
                        && store@.customizations[i].user_id == user_id@),
            },
    {
        let n = store.customizations.len();
        let mut i: usize = 0;
        while i < n
            invariant
                n == store.customizations@.len(),
                i <= n,
                forall|j: int|
                    0 <= j < i ==> !((#[trigger] store@.customizations[j]).website_id == website_id@
                        && store@.customizations[j].user_id == user_id@),
            decreases n - i,
        {
            let c = &store.customizations[i];
            if str_eq(c.website_id.as_str(), website_id) && str_eq(c.user_id.as_str(), user_id) {
                proof {
                    assert(store@.customizations[i as int] == c@);
                    assert(store@.customizations.contains(c@));
                }
                return Some(c.duplicate());
            }
            i += 1;
        }
        None
    }

    /// Replaces the three customization values of a website, scoped to its
    /// owner.  A write that matches no row surfaces as `NotFound`.
    pub fn update(
        store: &mut Store,
        website_id: &str,
        user_id: &str,
        primary_color: Option<String>,
        secondary_color: Option<String>,
        logo_image_url: Option<String>,
    ) -> (r: Result<Customization, DbError>)
        requires
            old(store)@.wf(),
        ensures
            final(store)@.wf(),
            match r {
                Ok(c) => exists|i: int|
                    {
                        &&& 0 <= i < old(store)@.customizations.len()
                        &&& (#[trigger] old(store)@.customizations[i]).website_id == website_id@
                        &&& old(store)@.customizations[i].user_id == user_id@
                        &&& c@ == (CustomizationV {
                            primary_color: primary_color.deep_view(),
                            secondary_color: secondary_color.deep_view(),
                            logo_image_url: logo_image_url.deep_view(),
                            ..old(store)@.customizations[i]
                        })
                        &&& final(store)@ == (StoreV {
                            customizations: old(store)@.customizations.update(i, c@),
                            ..old(store)@
                        })
                    },
                Err(e) => {
                    &&& *final(store) == *old(store)
                    &&& e matches DbError::NotFound
                    &&& forall|i: int|
                        0 <= i < old(store)@.customizations.len() ==> !((
                        #[trigger] old(store)@.customizations[i]).website_id == website_id@ && old(
                            store,
                        )@.customizations[i].user_id == user_id@)
                },
            },
    {
        let n = store.customizations.len();
        let mut i: usize = 0;
        while i < n
            invariant
                *store == *old(store),
                store@.wf(),
                n == store.customizations@.len(),
                i <= n,
                forall|j: int|
                    0 <= j < i ==> !((#[trigger] store@.customizations[j]).website_id == website_id@
                        && store@.customizations[j].user_id == user_id@),
            decreases n - i,
        {
            let matches_row = {
                let c = &store.customizations[i];
                str_eq(c.website_id.as_str(), website_id) && str_eq(c.user_id.as_str(), user_id)
            };
            if matches_row {
                let ghost old_store = store@;
                let mut new_row = store.customizations[i].duplicate();
                new_row.primary_color = primary_color;
                new_row.secondary_color = secondary_color;
                new_row.logo_image_url = logo_image_url;
                let result = new_row.duplicate();
                store.customizations[i] = new_row;
                proof {
                    assert(old_store == old(store)@);
                    assert(old_store.customizations[i as int].website_id == website_id@
                        && old_store.customizations[i as int].user_id == user_id@);
                    assert(store@.customizations =~= old_store.customizations.update(
                        i as int,
                        result@,
                    ));
                    assert(store@.websites =~= old_store.websites);
                    assert(store@.domains =~= old_store.domains);
                    assert(store@.pages =~= old_store.pages);
                    assert(store@.static_pages =~= old_store.static_pages);
                    assert(store@ == (StoreV {
                        customizations: old_store.customizations.update(i as int, result@),
                        ..old_store
                    }));
                    assert forall|a: int, b: int|
                        0 <= a < b < store@.customizations.len() implies (
                    #[trigger] store@.customizations[a]).website_id != (
                    #[trigger] store@.customizations[b]).website_id by {
                        assert(old_store.customizations[a].website_id
                            != old_store.customizations[b].website_id);
                        assert(store@.customizations[a].website_id
                            == old_store.customizations[a].website_id);
                        assert(store@.customizations[b].website_id
                            == old_store.customizations[b].website_id);
                    }
                    assert(store@.wf());
                }
                return Ok(result);
            }
            i += 1;
        }
        Err(DbError::NotFound)
    }

    /// Deletes the customization row of a website, scoped to its owner.  A
    /// delete that matches no row surfaces as `NotFound`.
    pub fn delete(store: &mut Store, website_id: &str, user_id: &str) -> (r: Result<(), DbError>)
        requires
            old(store)@.wf(),
        ensures
            final(store)@.wf(),
            match r {
                Ok(()) => exists|i: int|
                    {
                        &&& 0 <= i < old(store)@.customizations.len()
                        &&& (#[trigger] old(store)@.customizations[i]).website_id == website_id@
                        &&& old(store)@.customizations[i].user_id == user_id@
                        &&& final(store)@ == (StoreV {
                            customizations: old(store)@.customizations.remove(i),
                            ..old(store)@
                        })
                    },
                Err(e) => {
                    &&& *final(store) == *old(store)
                    &&& e matches DbError::NotFound
                    &&& forall|i: int|
                        0 <= i < old(store)@.customizations.len() ==> !((
                        #[trigger] old(store)@.customizations[i]).website_id == website_id@ && old(
                            store,
                        )@.customizations[i].user_id == user_id@)
                },
            },
    {
        let n = store.customizations.len();
        let mut i: usize = 0;
        while i < n
            invariant
                *store == *old(store),
                store@.wf(),
                n == store.customizations@.len(),
                i <= n,
                forall|j: int|
                    0 <= j < i ==> !((#[trigger] store@.customizations[j]).website_id == website_id@
                        && store@.customizations[j].user_id == user_id@),
            decreases n - i,
        {
            let matches_row = {
                let c = &store.customizations[i];
                str_eq(c.website_id.as_str(), website_id) && str_eq(c.user_id.as_str(), user_id)
            };
            if matches_row {
                let ghost old_store = store@;
                store.customizations.remove(i);
                proof {
                    assert(old_store == old(store)@);
                    assert(old_store.customizations[i as int].website_id == website_id@
                        && old_store.customizations[i as int].user_id == user_id@);
                    assert(store@.customizations =~= old_store.customizations.remove(i as int));
                    assert(store@.websites =~= old_store.websites);
                    assert(store@.domains =~= old_store.domains);
                    assert(store@.pages =~= old_store.pages);
                    assert(store@.static_pages =~= old_store.static_pages);
                    assert(store@ == (StoreV {
                        customizations: old_store.customizations.remove(i as int),
                        ..old_store
                    }));
                    assert forall|a: int, b: int|
                        0 <= a < b < store@.customizations.len() implies (
                    #[trigger] store@.customizations[a]).website_id != (
                    #[trigger] store@.customizations[b]).website_id by {
                        let a0 = if a < i as int {
                            a
                        } else {
                            a + 1
                        };
                        let b0 = if b < i as int {
                            b
                        } else {
                            b + 1
                        };
                        assert(store@.customizations[a] == old_store.customizations[a0]);
                        assert(store@.customizations[b] == old_store.customizations[b0]);
                        assert(old_store.customizations[a0].website_id
                            != old_store.customizations[b0].website_id);
                    }
                    assert(store@.wf());
                }
                return Ok(());
            }
            i += 1;
        }
        Err(DbError::NotFound)
    }

    /// Deletes the customization row of a website, scoped to its owner, if
    /// one exists; a website without one is unaffected, so this delete
    /// succeeds whether or not a row matched.
    pub fn delete_for_website(store: &mut Store, website_id: &str, user_id: &str) -> (r: Result<
        (),
        DbError,
    >)
        requires
            old(store)@.wf(),
        ensures
            final(store)@.wf(),
            r is Ok,
            final(store)@ == (StoreV {
                customizations: old(store)@.customizations.filter(
                    spec_customization_outside_website(website_id@, user_id@),
                ),
                ..old(store)@
            }),
    {
        let ghost pred = spec_customization_outside_website(website_id@, user_id@);
        let mut kept: Vec<Customization> = Vec::new();
        let n = store.customizations.len();
        let mut i: usize = 0;
        while i < n
            invariant
                *store == *old(store),
                store@.wf(),
                n == store.customizations@.len(),
                i <= n,
                pred == spec_customization_outside_website(website_id@, user_id@),
                kept.deep_view() == store@.customizations.take(i as int).filter(pred),
            decreases n - i,
        {
            let c = &store.customizations[i];
            proof {
                reveal(Seq::filter);
                assert(store@.customizations.take(i as int + 1).drop_last()
                    =~= store@.customizations.take(i as int));
                assert(store@.customizations.take(i as int + 1).last() == c@);
            }
            let ghost prev = kept.deep_view();
            if !(str_eq(c.website_id.as_str(), website_id) && str_eq(
                c.user_id.as_str(),
                user_id,
            )) {
                kept.push(c.duplicate());
                proof {
                    assert(kept.deep_view() =~= prev.push(c@));
                }
            }
            i += 1;
        }
        let ghost old_store = store@;
        store.customizations = kept;
        proof {
            assert(old_store.customizations.take(n as int) =~= old_store.customizations);
            assert(store@ == (StoreV {
                customizations: old_store.customizations.filter(pred),
                ..old_store
            }));
            lemma_filter_pairwise(
                old_store.customizations,
                pred,
                |x: CustomizationV, y: CustomizationV| x.website_id == y.website_id,
            );
            assert(store@.wf());
        }
        Ok(())
    }
}

/// Whether a static-page row does not carry this page id and owner.
pub open spec fn spec_static_page_not_owned(page_id: i64, user_id: Seq<char>) -> spec_fn(
    StaticPageV,
) -> bool {
    |sp: StaticPageV| !(sp.page_id == page_id && sp.user_id == user_id)
}

/// Whether a static-page row does not belong to this website and owner.
pub open spec fn spec_static_page_outside_website(
    website_id: Seq<char>,
    user_id: Seq<char>,
) -> spec_fn(StaticPageV) -> bool {
    |sp: StaticPageV| !(sp.website_id == website_id && sp.user_id == user_id)
}

/// Whether a customization row does not belong to this website and owner.
pub open spec fn spec_customization_outside_website(
    website_id: Seq<char>,
    user_id: Seq<char>,
) -> spec_fn(CustomizationV) -> bool {
    |c: CustomizationV| !(c.website_id == website_id && c.user_id == user_id)
}

impl StaticPage {
    /// Inserts the structured-document row of a static page, one-to-one with
    /// the page.  The page must exist; a second row for the same page
    /// violates the unique constraint.
    pub fn create(
        store: &mut Store,
        page_id: i64,
        website_id: &str,
        user_id: &str,
        components: &str,
    ) -> (r: Result<StaticPage, DbError>)
        requires
            old(store)@.wf(),
        ensures
            final(store)@.wf(),
            match r {
                Ok(sp) => {
                    &&& exists|i: int|
                        0 <= i < old(store)@.pages.len() && (#[trigger] old(
                            store,
                        )@.pages[i]).page_id == page_id
                    &&& forall|i: int|
                        0 <= i < old(store)@.static_pages.len() ==> (#[trigger] old(
                            store,
                        )@.static_pages[i]).page_id != page_id
                    &&& sp@ == (StaticPageV {
                        page_id,
                        website_id: website_id@,
                        user_id: user_id@,
                        created_at: old(store)@.now,
                        updated_at: old(store)@.now,
                        components: components@,
                    })
                    &&& final(store)@ == (StoreV {
                        static_pages: old(store)@.static_pages.push(sp@),
                        ..old(store)@
                    })
                },
                Err(e) => {
                    &&& *final(store) == *old(store)
                    &&& match e {
                        DbError::Database(SqlState::ForeignKeyViolation, _) => forall|i: int|
                            0 <= i < old(store)@.pages.len() ==> (#[trigger] old(
                                store,
                            )@.pages[i]).page_id != page_id,
                        DbError::Database(SqlState::UniqueViolation, _) => exists|i: int|
                            0 <= i < old(store)@.static_pages.len() && (#[trigger] old(
                                store,
                            )@.static_pages[i]).page_id == page_id,
                        _ => false,
                    }
                },
            },
    {
        match Page::get(store, page_id) {
            Some(_) => {},
            None => {
                return Err(
                    DbError::Database(
                        SqlState::ForeignKeyViolation,
                        String::from_str("violates foreign key constraint"),
                    ),
                );
            },
        }
        let n = store.static_pages.len();
        let mut i: usize = 0;
        while i < n
            invariant
                *store == *old(store),
                store@.wf(),
                n == store.static_pages@.len(),
                i <= n,
                forall|j: int|
                    0 <= j < i ==> (#[trigger] store@.static_pages[j]).page_id != page_id,
            decreases n - i,
        {
            if store.static_pages[i].page_id == page_id {
                proof {
                    assert(store@.static_pages[i as int].page_id == page_id);
                }
                return Err(
                    DbError::Database(
                        SqlState::UniqueViolation,
                        String::from_str("duplicate key value violates unique constraint"),
                    ),
                );
            }
            i += 1;
        }
        let row = StaticPage {
            page_id,
            website_id: website_id.to_owned(),
            user_id: user_id.to_owned(),
            created_at: store.now,
            updated_at: store.now,
            components: components.to_owned(),
        };
        let result = row.duplicate();
        let ghost old_store = store@;
        store.static_pages.push(row);
        proof {
            assert(old_store.wf());
            assert(store@.static_pages =~= old_store.static_pages.push(result@));
            assert(store@.websites =~= old_store.websites);
            assert(store@.domains =~= old_store.domains);
            assert(store@.pages =~= old_store.pages);
            assert(store@.customizations =~= old_store.customizations);
            assert(store@ == (StoreV {
                static_pages: old_store.static_pages.push(result@),
                ..old_store
            }));
            let last = store@.static_pages.len() - 1;
            assert forall|a: int, b: int|
                0 <= a < b < store@.static_pages.len() implies (
            #[trigger] store@.static_pages[a]).page_id != (
            #[trigger] store@.static_pages[b]).page_id by {
                if b == last {
                    assert(store@.static_pages[a] == old_store.static_pages[a]);
                }
            }
            assert(store@.wf());
        }
        Ok(result)
    }

    /// Fetches the structured-document row of a static page.
    pub fn get(store: &Store, page_id: i64) -> (r: Option<StaticPage>)
        requires
            store@.wf(),
        ensures
            match r {
                Some(sp) => store@.static_pages.contains(sp@) && sp@.page_id == page_id,
                None => forall|i: int|
                    0 <= i < store@.static_pages.len() ==> (
                    #[trigger] store@.static_pages[i]).page_id != page_id,
            },
    {
        let n = store.static_pages.len();
        let mut i: usize = 0;
        while i < n
            invariant
                n == store.static_pages@.len(),
                i <= n,
                forall|j: int|
                    0 <= j < i ==> (#[trigger] store@.static_pages[j]).page_id != page_id,
            decreases n - i,
        {
            let sp = &store.static_pages[i];
            if sp.page_id == page_id {
                proof {
                    assert(store@.static_pages[i as int] == sp@);
                    assert(store@.static_pages.contains(sp@));
                }
                return Some(sp.duplicate());
            }
            i += 1;
        }
        None
    }

    /// Replaces the structured document of a static page, scoped to its
    /// owner, and refreshes the update timestamp.  A write that matches no
    /// row surfaces as `NotFound`.
    pub fn update(store: &mut Store, page_id: i64, user_id: &str, components: &str) -> (r: Result<
        StaticPage,
        DbError,
    >)
        requires
            old(store)@.wf(),
        ensures
            final(store)@.wf(),
            match r {
                Ok(sp) => exists|i: int|
                    {
                        &&& 0 <= i < old(store)@.static_pages.len()
                        &&& (#[trigger] old(store)@.static_pages[i]).page_id == page_id
                        &&& old(store)@.static_pages[i].user_id == user_id@
                        &&& sp@ == (StaticPageV {
                            components: components@,
                            updated_at: old(store)@.now,
                            ..old(store)@.static_pages[i]
                        })
                        &&& final(store)@ == (StoreV {
                            static_pages: old(store)@.static_pages.update(i, sp@),
                            ..old(store)@
                        })
                    },
                Err(e) => {
                    &&& *final(store) == *old(store)
                    &&& e matches DbError::NotFound
                    &&& forall|i: int|
                        0 <= i < old(store)@.static_pages.len() ==> !((
                        #[trigger] old(store)@.static_pages[i]).page_id == page_id && old(
                            store,
                        )@.static_pages[i].user_id == user_id@)
                },
            },
    {
        let n = store.static_pages.len();
        let mut i: usize = 0;
        while i < n
            invariant
                *store == *old(store),
                store@.wf(),
                n == store.static_pages@.len(),
                i <= n,
                forall|j: int|
                    0 <= j < i ==> !((#[trigger] store@.static_pages[j]).page_id == page_id
                        && store@.static_pages[j].user_id == user_id@),
            decreases n - i,
        {
            let matches_row = {
                let sp = &store.static_pages[i];
                sp.page_id == page_id && str_eq(sp.user_id.as_str(), user_id)
            };
            if matches_row {
                let ghost old_store = store@;
                let now = store.now;
                let mut new_row = store.static_pages[i].duplicate();
                new_row.components = components.to_owned();
                new_row.updated_at = now;
                let result = new_row.duplicate();
                store.static_pages[i] = new_row;
                proof {
                    assert(old_store == old(store)@);
                    assert(old_store.static_pages[i as int].page_id == page_id
                        && old_store.static_pages[i as int].user_id == user_id@);
                    assert(store@.static_pages =~= old_store.static_pages.update(
                        i as int,
                        result@,
                    ));
                    assert(store@.websites =~= old_store.websites);
                    assert(store@.domains =~= old_store.domains);
                    assert(store@.pages =~= old_store.pages);
                    assert(store@.customizations =~= old_store.customizations);
                    assert(store@ == (StoreV {
                        static_pages: old_store.static_pages.update(i as int, result@),
                        ..old_store
                    }));
                    assert forall|a: int, b: int|
                        0 <= a < b < store@.static_pages.len() implies (
                    #[trigger] store@.static_pages[a]).page_id != (
                    #[trigger] store@.static_pages[b]).page_id by {
                        assert(old_store.static_pages[a].page_id
                            != old_store.static_pages[b].page_id);
                        assert(store@.static_pages[a].page_id
                            == old_store.static_pages[a].page_id);
                        assert(store@.static_pages[b].page_id
                            == old_store.static_pages[b].page_id);
                    }
                    assert(store@.wf());
                }
                return Ok(result);
            }
            i += 1;
        }
        Err(DbError::NotFound)
    }

    /// Deletes the structured-document row of a page, scoped to its owner,
    /// if one exists.  Pages without a structured document are unaffected,
    /// so this delete succeeds whether or not a row matched.
    pub fn delete(store: &mut Store, page_id: i64, user_id: &str) -> (r: Result<(), DbError>)
        requires
            old(store)@.wf(),
        ensures
            final(store)@.wf(),
            r is Ok,
            final(store)@ == (StoreV {
                static_pages: old(store)@.static_pages.filter(
                    spec_static_page_not_owned(page_id, user_id@),
                ),
                ..old(store)@
            }),
    {
        let ghost pred = spec_static_page_not_owned(page_id, user_id@);
        let mut kept: Vec<StaticPage> = Vec::new();
        let n = store.static_pages.len();
        let mut i: usize = 0;
        while i < n
            invariant
                *store == *old(store),
                store@.wf(),
                n == store.static_pages@.len(),
                i <= n,
                pred == spec_static_page_not_owned(page_id, user_id@),
                kept.deep_view() == store@.static_pages.take(i as int).filter(pred),
            decreases n - i,
        {
            let sp = &store.static_pages[i];
            proof {
                reveal(Seq::filter);
                assert(store@.static_pages.take(i as int + 1).drop_last()
                    =~= store@.static_pages.take(i as int));
                assert(store@.static_pages.take(i as int + 1).last() == sp@);
            }
            let ghost prev = kept.deep_view();
            if !(sp.page_id == page_id && str_eq(sp.user_id.as_str(), user_id)) {
                kept.push(sp.duplicate());
                proof {
                    assert(kept.deep_view() =~= prev.push(sp@));
                }
            }
            i += 1;
        }
        let ghost old_store = store@;
        store.static_pages = kept;
        proof {
            assert(old_store.static_pages.take(n as int) =~= old_store.static_pages);
            assert(store@ == (StoreV {
                static_pages: old_store.static_pages.filter(pred),
                ..old_store
            }));
            lemma_filter_pairwise(
                old_store.static_pages,
                pred,
                |x: StaticPageV, y: StaticPageV| x.page_id == y.page_id,
            );
            lemma_filter_elementwise(
                old_store.static_pages,
                pred,
                |x: StaticPageV| 0 < x.page_id < old_store.next_page_id,
            );
            assert(store@.wf());
        }
        Ok(())
    }

    /// Deletes every structured-document row of a website, scoped to its
    /// owner.
    pub fn delete_for_website(store: &mut Store, website_id: &str, user_id: &str) -> (r: Result<
        (),
        DbError,
    >)
        requires
            old(store)@.wf(),
        ensures
            final(store)@.wf(),
            r is Ok,
            final(store)@ == (StoreV {
                static_pages: old(store)@.static_pages.filter(
                    spec_static_page_outside_website(website_id@, user_id@),
                ),
                ..old(store)@
            }),
    {
        let ghost pred = spec_static_page_outside_website(website_id@, user_id@);
        let mut kept: Vec<StaticPage> = Vec::new();
        let n = store.static_pages.len();
        let mut i: usize = 0;
        while i < n
            invariant
                *store == *old(store),
                store@.wf(),
                n == store.static_pages@.len(),
                i <= n,
                pred == spec_static_page_outside_website(website_id@, user_id@),
                kept.deep_view() == store@.static_pages.take(i as int).filter(pred),
            decreases n - i,
        {
            let sp = &store.static_pages[i];
            proof {
                reveal(Seq::filter);
                assert(store@.static_pages.take(i as int + 1).drop_last()
                    =~= store@.static_pages.take(i as int));
                assert(store@.static_pages.take(i as int + 1).last() == sp@);
            }
            let ghost prev = kept.deep_view();
            if !(str_eq(sp.website_id.as_str(), website_id) && str_eq(
                sp.user_id.as_str(),
                user_id,
            )) {
                kept.push(sp.duplicate());
                proof {
                    assert(kept.deep_view() =~= prev.push(sp@));
                }
            }
            i += 1;
        }
        let ghost old_store = store@;
        store.static_pages = kept;
        proof {
            assert(old_store.static_pages.take(n as int) =~= old_store.static_pages);
            assert(store@ == (StoreV {
                static_pages: old_store.static_pages.filter(pred),
                ..old_store
            }));
            lemma_filter_pairwise(
                old_store.static_pages,
                pred,
                |x: StaticPageV, y: StaticPageV| x.page_id == y.page_id,
            );
            lemma_filter_elementwise(
                old_store.static_pages,
                pred,
                |x: StaticPageV| 0 < x.page_id < old_store.next_page_id,
            );
            assert(store@.wf());
        }
        Ok(())
    }
}

/// Whether a website row is owned by this user.
pub open spec fn spec_website_owned_by(user_id: Seq<char>) -> spec_fn(WebsiteV) -> bool {
    |w: WebsiteV| w.user_id == user_id
}

/// The website rows a listing ranges over: all of them, or one owner's.
pub open spec fn spec_websites_filtered(s: StoreV, user_id: Option<Seq<char>>) -> Seq<WebsiteV> {
    match user_id {
        Some(u) => s.websites.filter(spec_website_owned_by(u)),
        None => s.websites,
    }
}

impl Website {
    /// Lists website aggregates, optionally scoped to one owner, windowed by
    /// `limit` and `offset`, together with the total count of matching rows.
    /// The count ranges over exactly the same filter as the listed window.
    pub fn list(store: &Store, user_id: &Option<String>, limit: u64, offset: u64) -> (r: (
        Vec<Website>,
        i64,
    ))
        requires
            store@.wf(),
            store@.websites.len() < 0x7fff_ffff_ffff_ffff,
        ensures
            ({
                let filtered = spec_websites_filtered(store@, user_id.deep_view());
                let window = spec_slice(filtered, limit as int, offset as int);
                &&& r.0.deep_view().len() == window.len()
                &&& forall|k: int|
                    0 <= k < window.len() ==> r.0.deep_view()[k] == spec_aggregate_of(
                        store@,
                        #[trigger] window[k],
                    )
                &&& r.1 == filtered.len()
            }),
    {
        let ghost filtered_spec = spec_websites_filtered(store@, user_id.deep_view());
        let mut filtered: Vec<Website> = Vec::new();
        let n = store.websites.len();
        let mut i: usize = 0;
        while i < n
            invariant
                store@.wf(),
                n == store.websites@.len(),
                i <= n,
                filtered_spec == spec_websites_filtered(store@, user_id.deep_view()),
                filtered.deep_view() == (match user_id.deep_view() {
                    Some(u) => store@.websites.take(i as int).filter(spec_website_owned_by(u)),
                    None::<Seq<char>> => store@.websites.take(i as int),
                }),
            decreases n - i,
        {
            let w = &store.websites[i];
            proof {
                reveal(Seq::filter);
                assert(store@.websites.take(i as int + 1).drop_last() =~= store@.websites.take(
                    i as int,
                ));
                assert(store@.websites.take(i as int + 1).last() == w@);
            }
            let ghost prev = filtered.deep_view();
            let keep = match user_id {
                Some(u) => str_eq(w.user_id.as_str(), u.as_str()),
                None => true,
            };
            if keep {
                proof {
                    assert(store@.websites[i as int].customization is None && store@.websites[
                        i as int].domains.len() == 0 && store@.websites[i as int].pages.len()
                        == 0);
                }
                filtered.push(clone_website_row(w));
                proof {
                    assert(filtered.deep_view() =~= prev.push(w@));
                }
            }
            i += 1;
        }
        proof {
            assert(store@.websites.take(n as int) =~= store@.websites);
        }
        let total = filtered.len();
        let start: usize = if offset >= total as u64 {
            total
        } else {
            offset as usize
        };
        let end: usize = if offset >= total as u64 {
            total
        } else {
            let remaining: u64 = total as u64 - offset;
            if limit >= remaining {
                total
            } else {
                (offset + limit) as usize
            }
        };
        let ghost window = spec_slice(filtered_spec, limit as int, offset as int);
        proof {
            assert(filtered_spec.len() == total as int);
            assert(start as int == (if offset as int <= filtered_spec.len() {
                offset as int
            } else {
                filtered_spec.len() as int
            }));
            assert(end as int == (if offset as int + limit as int <= filtered_spec.len() {
                offset as int + limit as int
            } else {
                filtered_spec.len() as int
            }));
            assert(window == filtered_spec.subrange(start as int, end as int));
            let bare = |w: WebsiteV|
                w.customization is None && w.domains.len() == 0 && w.pages.len() == 0;
            match user_id.deep_view() {
                Some(u) => {
                    lemma_filter_elementwise(store@.websites, spec_website_owned_by(u), bare);
                },
                None => {},
            }
            assert forall|m: int|
                0 <= m < filtered@.len() implies {
                &&& (#[trigger] filtered@[m])@.customization is None
                &&& filtered@[m]@.domains.len() == 0
                &&& filtered@[m]@.pages.len() == 0
            } by {
                assert(filtered@[m]@ == filtered_spec[m]);
                match user_id.deep_view() {
                    Some(u) => {
                        assert(bare(store@.websites.filter(spec_website_owned_by(u))[m]));
                    },
                    None => {
                        assert(filtered_spec[m] == store@.websites[m]);
                    },
                }
            }
        }
        let mut out: Vec<Website> = Vec::new();
        let mut k: usize = start;
        while k < end
            invariant
                store@.wf(),
                start <= k <= end <= filtered@.len(),
                filtered.deep_view() == filtered_spec,
                window == filtered_spec.subrange(start as int, end as int),
                out@.len() == k - start,
                forall|m: int|
                    0 <= m < out@.len() ==> (#[trigger] out@[m])@ == spec_aggregate_of(
                        store@,
                        window[m],
                    ),
                forall|m: int|
                    0 <= m < filtered@.len() ==> {
                        &&& (#[trigger] filtered@[m])@.customization is None
                        &&& filtered@[m]@.domains.len() == 0
                        &&& filtered@[m]@.pages.len() == 0
                    },
            decreases end - k,
        {
            let row = &filtered[k];
            let agg = aggregate_of(store, row);
            out.push(agg);
            proof {
                assert(filtered@[k as int]@ == filtered_spec[k as int]);
                assert(window[k - start] == filtered_spec[k as int]);
            }
            k += 1;
        }
        proof {
            assert(window =~= filtered_spec.subrange(start as int, end as int));
            assert(out.deep_view().len() == window.len());
            assert forall|m: int|
                0 <= m < window.len() implies out.deep_view()[m] == spec_aggregate_of(
                store@,
                #[trigger] window[m],
            ) by {
                assert(out@[m]@ == spec_aggregate_of(store@, window[m]));
            }
        }
        (out, total as i64)
    }
}

} // verus!
