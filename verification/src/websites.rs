//! Website lifecycle: the one multi-row creation of the service, aggregate
//! reads, paginated listings, renames, and the cascading delete.
//!
//! Creating a website writes four rows as one logical operation: the website
//! itself, its customization, its platform-assigned `Internal` domain under
//! the main domain, and its home page at the root path.  All preconditions
//! are checked before the first row is written, so a failed creation leaves
//! the store untouched.

use vstd::prelude::*;
use vstd::string::StringSliceAdditionalSpecFns;
use vstd::utf8::encode_utf8;

use crate::errors::{Code, Status};
use crate::model::{
    str_eq, Customization, CustomizationV, Domain, DomainStatus, DomainV, Page, PageType, PageV,
    StaticPage, Website, WebsiteV,
};
use crate::pages::{spec_home_page_ok, spec_home_pages_invariant};
use crate::store::{
    spec_domain_rel_of, spec_domain_rel_proj, spec_domain_rels_of, Store, StoreV,
};

verus! {

/// The shortest display name a website may carry.
pub const MINIMUM_WEBSITE_NAME_LENGTH: usize = 4;

/// The length of a generated website id.
pub const WEBSITE_ID_LENGTH: usize = 14;

/// Relies on nanoid's generator: the returned id has exactly `size`
/// characters, each drawn from the given alphabet.  The alphabet must be
/// ASCII — the generator counts the bytes of the id it accumulates, so a
/// multi-byte character would make the count disagree with the character
/// count.  The result is random, so nothing more is promised of it.
#[verifier::external_body]
fn generate_id(alphabet: &[char], size: usize) -> (r: String)
    requires
        1 <= alphabet@.len() <= 255,
        forall|i: int| 0 <= i < alphabet@.len() ==> (alphabet@[i] as u32) < 128,
        size >= 1,
    ensures
        r@.len() == size,
        forall|i: int| 0 <= i < r@.len() ==> alphabet@.contains(#[trigger] r@[i]),
{
    nanoid::format(nanoid::rngs::default, alphabet, size)
}

/// The digits and lower-case letters that website ids (and so the platform
/// subdomains derived from them) are built of.
pub open spec fn spec_domain_alphabet() -> Seq<char> {
    seq![
        '0', '1', '2', '3', '4', '5', '6', '7', '8', '9', 'a', 'b', 'c', 'd', 'e', 'f', 'g', 'h',
        'i', 'j', 'k', 'l', 'm', 'n', 'o', 'p', 'q', 'r', 's', 't', 'u', 'v', 'w', 'x', 'y', 'z',
    ]
}

/// The id alphabet as a vector.
fn domain_alphabet() -> (r: Vec<char>)
    ensures
        r@ == spec_domain_alphabet(),
{
    let alphabet: Vec<char> = vec![
        '0',
        '1',
        '2',
        '3',
        '4',
        '5',
        '6',
        '7',
        '8',
        '9',
        'a',
        'b',
        'c',
        'd',
        'e',
        'f',
        'g',
        'h',
        'i',
        'j',
        'k',
        'l',
        'm',
        'n',
        'o',
        'p',
        'q',
        'r',
        's',
        't',
        'u',
        'v',
        'w',
        'x',
        'y',
        'z',
    ];
    proof {
        assert(alphabet@ =~= spec_domain_alphabet());
    }
    alphabet
}

/// The platform subdomain of a website: its id, a dot, the main domain.
pub open spec fn spec_main_domain_of(website_id: Seq<char>, main_domain: Seq<char>) -> Seq<char> {
    website_id + seq!['.'] + main_domain
}

/// Whether a generated website id is fresh: no website row carries it and no
/// child row references it.
pub open spec fn spec_website_id_fresh(s: StoreV, website_id: Seq<char>) -> bool {
    &&& !s.has_website(website_id)
    &&& forall|i: int|
        0 <= i < s.customizations.len() ==> (#[trigger] s.customizations[i]).website_id
            != website_id
    &&& forall|i: int|
        0 <= i < s.domains.len() ==> (#[trigger] s.domains[i]).website_id != website_id
    &&& forall|i: int| 0 <= i < s.pages.len() ==> (#[trigger] s.pages[i]).website_id != website_id
}

/// Whether the id sequences still have room for the child rows website
/// creation inserts.
pub open spec fn spec_id_headroom(s: StoreV) -> bool {
    s.next_domain_id < i64::MAX && s.next_page_id < i64::MAX
}

/// Whether any domain row references this website id.
fn domain_rows_exist(store: &Store, website_id: &str) -> (r: bool)
    ensures
        r == exists|i: int|
            0 <= i < store@.domains.len() && (#[trigger] store@.domains[i]).website_id
                == website_id@,
{
    let n = store.domains.len();
    let mut i: usize = 0;
    while i < n
        invariant
            n == store.domains@.len(),
            i <= n,
            forall|j: int| 0 <= j < i ==> (#[trigger] store@.domains[j]).website_id != website_id@,
        decreases n - i,
    {
        if str_eq(store.domains[i].website_id.as_str(), website_id) {
            proof {
                assert(store@.domains[i as int].website_id == website_id@);
            }
            return true;
        }
        i += 1;
    }
    false
}

/// Whether any page row references this website id.
fn page_rows_exist(store: &Store, website_id: &str) -> (r: bool)
    ensures
        r == exists|i: int|
            0 <= i < store@.pages.len() && (#[trigger] store@.pages[i]).website_id == website_id@,
{
    let n = store.pages.len();
    let mut i: usize = 0;
    while i < n
        invariant
            n == store.pages@.len(),
            i <= n,
            forall|j: int| 0 <= j < i ==> (#[trigger] store@.pages[j]).website_id != website_id@,
        decreases n - i,
    {
        if str_eq(store.pages[i].website_id.as_str(), website_id) {
            proof {
                assert(store@.pages[i as int].website_id == website_id@);
            }
            return true;
        }
        i += 1;
    }
    false
}

/// Website operations over the store; holds the platform's main domain
/// (under which every website gets its subdomain) and the fallback domain
/// customer domains must point at.
pub struct WebsiteService {
    pub main_domain: String,
    pub fallback_domain: String,
}

impl WebsiteService {
    /// Builds the service around the platform's domains.
    pub fn build(main_domain: String, fallback_domain: String) -> (r: WebsiteService)
        ensures
            r.main_domain == main_domain,
            r.fallback_domain == fallback_domain,
    {
        WebsiteService { main_domain, fallback_domain }
    }

    /// Generates a fresh website id: fourteen characters of digits and
    /// lower-case letters.
    pub fn generate_website_id(&self) -> (r: String)
        ensures
            r@.len() == WEBSITE_ID_LENGTH as int,
            forall|i: int|
                0 <= i < r@.len() ==> spec_domain_alphabet().contains(#[trigger] r@[i]),
    {
        let alphabet = domain_alphabet();
        proof {
            assert forall|i: int| 0 <= i < alphabet@.len() implies (alphabet@[i] as u32)
                < 128 by {
                assert(alphabet@ =~= spec_domain_alphabet());
            }
        }
        generate_id(alphabet.as_slice(), WEBSITE_ID_LENGTH)
    }

    /// The platform subdomain of a website id.
    pub fn build_main_domain(&self, website_id: &str) -> (r: String)
        ensures
            r@ == spec_main_domain_of(website_id@, self.main_domain@),
    {
        let mut domain = String::from_str(website_id);
        domain.append(".");
        domain.append(self.main_domain.as_str());
        proof {
            reveal_strlit(".");
            assert("."@ =~= seq!['.']);
            assert(domain@ =~= spec_main_domain_of(website_id@, self.main_domain@));
        }
        domain
    }

    /// Creates a website for a user: the website row, its customization, its
    /// `Internal` platform subdomain and its home page at the root path, as
    /// one logical operation — every precondition is checked before the
    /// first write, so a failure leaves the store untouched.
    ///
    /// The name must have the minimum length, and must not be in use by the
    /// same user (another user may reuse it).  The caller supplies the
    /// generated website id and the identifiers issued by the
    /// OIDC-application collaborator.
    #[verifier::rlimit(50)]
    pub fn create_website(
        &self,
        store: &mut Store,
        user_id: &str,
        name: &str,
        website_id: &str,
        client_id: &str,
        zitadel_app_id: &str,
    ) -> (r: Result<Website, Status>)
        requires
            old(store)@.wf(),
        ensures
            final(store)@.wf(),
            spec_home_pages_invariant(old(store)@) ==> spec_home_pages_invariant(final(store)@),
            match r {
                Ok(w) => {
                    &&& encode_utf8(name@).len() >= MINIMUM_WEBSITE_NAME_LENGTH as int
                    &&& !old(store)@.has_website_named(name@, user_id@)
                    &&& spec_website_id_fresh(old(store)@, website_id@)
                    &&& spec_id_headroom(old(store)@)
                    &&& w@ == (WebsiteV {
                        website_id: website_id@,
                        user_id: user_id@,
                        created_at: old(store)@.now,
                        updated_at: old(store)@.now,
                        name: name@,
                        client_id: client_id@,
                        zitadel_app_id: zitadel_app_id@,
                        customization: None,
                        domains: Seq::empty(),
                        pages: Seq::empty(),
                    })
                    &&& final(store)@.websites == old(store)@.websites.push(w@)
                    &&& final(store)@.customizations == old(store)@.customizations.push(
                        CustomizationV {
                            website_id: website_id@,
                            user_id: user_id@,
                            primary_color: None,
                            secondary_color: None,
                            logo_image_url: None,
                        },
                    )
                    &&& final(store)@.domains == old(store)@.domains.push(
                        DomainV {
                            domain_id: old(store)@.next_domain_id,
                            website_id: website_id@,
                            user_id: user_id@,
                            created_at: old(store)@.now,
                            updated_at: old(store)@.now,
                            domain: spec_main_domain_of(website_id@, self.main_domain@),
                            status: DomainStatus::Internal,
                        },
                    )
                    &&& final(store)@.pages == old(store)@.pages.push(
                        PageV {
                            page_id: old(store)@.next_page_id,
                            website_id: website_id@,
                            user_id: user_id@,
                            created_at: old(store)@.now,
                            updated_at: old(store)@.now,
                            page_type: PageType::Static,
                            content_id: Seq::empty(),
                            title: "Home"@,
                            is_home_page: true,
                            path: "/"@,
                        },
                    )
                    &&& final(store)@.static_pages == old(store)@.static_pages
                    // the new website has exactly one domain — the internal
                    // subdomain — and exactly one home page, at the root path
                    &&& spec_domain_rels_of(final(store)@, website_id@) == seq![
                        spec_domain_rel_of(
                            DomainV {
                                domain_id: old(store)@.next_domain_id,
                                website_id: website_id@,
                                user_id: user_id@,
                                created_at: old(store)@.now,
                                updated_at: old(store)@.now,
                                domain: spec_main_domain_of(website_id@, self.main_domain@),
                                status: DomainStatus::Internal,
                            },
                        ),
                    ]
                    &&& spec_home_page_ok(final(store)@, website_id@)
                },
                Err(st) => {
                    &&& *final(store) == *old(store)
                    &&& match st.code {
                        Code::InvalidArgument => encode_utf8(name@).len()
                            < MINIMUM_WEBSITE_NAME_LENGTH as int && st.message@
                            == "name is too short"@,
                        Code::AlreadyExists => encode_utf8(name@).len()
                            >= MINIMUM_WEBSITE_NAME_LENGTH as int && (old(
                            store,
                        )@.has_website_named(name@, user_id@) || old(store)@.has_website(
                            website_id@,
                        )),
                        Code::Internal => {
                            &&& encode_utf8(name@).len() >= MINIMUM_WEBSITE_NAME_LENGTH as int
                            &&& !old(store)@.has_website_named(name@, user_id@)
                            &&& !old(store)@.has_website(website_id@)
                            &&& !(spec_website_id_fresh(old(store)@, website_id@)
                                && spec_id_headroom(old(store)@))
                        },
                        _ => false,
                    }
                },
            },
    {
        let name_bytes = name.as_bytes();
        if name_bytes.len() < MINIMUM_WEBSITE_NAME_LENGTH {
            return Err(Status::invalid_argument("name is too short"));
        }
        if Website::get_by_name(store, name, Some(user_id)).is_some() {
            return Err(Status::already_exists("duplicate name"));
        }
        // every remaining precondition is checked before the first write
        if Website::get(store, website_id).is_some() {
            return Err(Status::already_exists("duplicate website id"));
        }
        if Customization::get(store, website_id).is_some() {
            return Err(Status { code: Code::Internal, message: String::new() });
        }
        if store.next_domain_id == i64::MAX || store.next_page_id == i64::MAX {
            return Err(Status { code: Code::Internal, message: String::new() });
        }
        // a fresh id must not be referenced by any leftover child row
        if domain_rows_exist(store, website_id) || page_rows_exist(store, website_id) {
            return Err(Status { code: Code::Internal, message: String::new() });
        }
        let domain = self.build_main_domain(website_id);
        let ghost s0 = store@;
        let created = match Website::create(
            store,
            website_id,
            user_id,
            name,
            client_id,
            zitadel_app_id,
        ) {
            Ok(w) => w,
            Err(e) => {
                proof {
                    assert(false);
                }
                return Err(Status::from_db_error(e));
            },
        };
        let ghost s1 = store@;
        match Customization::create(store, website_id, user_id) {
            Ok(_) => {},
            Err(e) => {
                proof {
                    assert(s1.websites[s1.websites.len() - 1].website_id == website_id@);
                    assert(s1.has_website(website_id@));
                    assert(false);
                }
                return Err(Status::from_db_error(e));
            },
        }
        let ghost s2 = store@;
        match Domain::create(store, website_id, user_id, domain.as_str(), DomainStatus::Internal) {
            Ok(_) => {},
            Err(e) => {
                proof {
                    assert(s2.websites[s2.websites.len() - 1].website_id == website_id@);
                    assert(s2.has_website(website_id@));
                    assert(false);
                }
                return Err(Status::from_db_error(e));
            },
        }
        let ghost s3 = store@;
        match Page::create(
            store,
            website_id,
            user_id,
            PageType::Static,
            "",
            crate::pages::DEFAULT_HOME_PAGE_TITLE,
            true,
            crate::pages::HOME_PAGE_PATH,
        ) {
            Ok(_) => {},
            Err(e) => {
                proof {
                    assert(s3.websites[s3.websites.len() - 1].website_id == website_id@);
                    assert(s3.has_website(website_id@));
                    assert(false);
                }
                return Err(Status::from_db_error(e));
            },
        }
        proof {
            reveal_strlit("/");
            reveal_strlit("");
            reveal_strlit("Home");
            assert(""@ =~= Seq::<char>::empty());
            let sf = store@;
            // exactly one domain child: no old row referenced the fresh id
            let f = spec_domain_rel_proj(website_id@);
            assert forall|j: int| 0 <= j < s0.domains.len() implies f(#[trigger] s0.domains[j])
                is None by {
                assert(s0.domains[j].website_id != website_id@);
            }
            crate::store::lemma_filter_map_all_none(s0.domains, f);
            assert(sf.domains.drop_last() =~= s0.domains);
            assert(spec_domain_rels_of(sf, website_id@) =~= seq![
                spec_domain_rel_of(sf.domains.last()),
            ]);
            // exactly one home page: no old row referenced the fresh id
            let newest = sf.pages.len() - 1;
            assert(spec_is_home_page_of(sf.pages[newest], website_id@));
            assert forall|j: int|
                0 <= j < sf.pages.len() && j != newest implies !spec_is_home_page_of(
                #[trigger] sf.pages[j],
                website_id@,
            ) by {
                assert(sf.pages[j] == s0.pages[j]);
                assert(s0.pages[j].website_id != website_id@);
            }
            assert(spec_home_page_ok(sf, website_id@));
            // other websites keep their home pages
            if spec_home_pages_invariant(s0) {
                assert forall|k: int|
                    0 <= k < sf.websites.len() implies spec_home_page_ok(
                    sf,
                    (#[trigger] sf.websites[k]).website_id,
                ) by {
                    let wid = sf.websites[k].website_id;
                    if k < sf.websites.len() - 1 {
                        assert(sf.websites[k] == s0.websites[k]);
                        assert(spec_home_page_ok(s0, wid));
                        let h0 = choose|i: int|
                            {
                                &&& 0 <= i < s0.pages.len()
                                &&& spec_is_home_page_of(#[trigger] s0.pages[i], wid)
                                &&& s0.pages[i].path == "/"@
                                &&& forall|j: int|
                                    0 <= j < s0.pages.len() && j != i ==> !spec_is_home_page_of(
                                        #[trigger] s0.pages[j],
                                        wid,
                                    )
                            };
                        assert(sf.pages[h0] == s0.pages[h0]);
                        assert forall|j: int|
                            0 <= j < sf.pages.len() && j != h0 implies !spec_is_home_page_of(
                            #[trigger] sf.pages[j],
                            wid,
                        ) by {
                            if j == newest {
                                assert(s0.websites[k].website_id == wid);
                                assert(s0.has_website(wid));
                                assert(wid != website_id@);
                            } else {
                                assert(sf.pages[j] == s0.pages[j]);
                            }
                        }
                        assert(spec_home_page_ok(sf, wid));
                    } else {
                        assert(wid == website_id@);
                    }
                }
            }
        }
        Ok(created)
    }
}

impl WebsiteService {
    /// Fetches a website aggregate by id, or by one of its domain names; at
    /// least one selector must be given.
    pub fn get_website(
        store: &Store,
        website_id: Option<&str>,
        domain: Option<&str>,
    ) -> (r: Result<Option<Website>, Status>)
        requires
            store@.wf(),
        ensures
            match r {
                Ok(found) => match (website_id, domain) {
                    (Some(id), _) => match found {
                        Some(w) => store@.has_website(id@) && w@
                            == crate::store::spec_aggregate_of(
                            store@,
                            crate::store::spec_website_row(store@, id@),
                        ),
                        None => !store@.has_website(id@),
                    },
                    (None, Some(d)) => match found {
                        Some(w) => exists|i: int|
                            {
                                &&& 0 <= i < store@.domains.len()
                                &&& (#[trigger] store@.domains[i]).domain == d@
                                &&& store@.has_website(store@.domains[i].website_id)
                                &&& w@ == crate::store::spec_aggregate_of(
                                    store@,
                                    crate::store::spec_website_row(
                                        store@,
                                        store@.domains[i].website_id,
                                    ),
                                )
                            },
                        None => forall|i: int|
                            0 <= i < store@.domains.len() && (#[trigger] store@.domains[i]).domain
                                == d@ ==> !store@.has_website(store@.domains[i].website_id),
                    },
                    (None, None) => false,
                },
                Err(st) => st.code == Code::InvalidArgument && website_id is None && domain
                    is None,
            },
    {
        match (website_id, domain) {
            (Some(id), _) => Ok(Website::get(store, id)),
            (None, Some(d)) => Ok(Website::get_by_domain(store, d)),
            (None, None) => Err(
                Status::invalid_argument(
                    "Please provide at least one of 'website_id' or 'domain'",
                ),
            ),
        }
    }

    /// Lists website aggregates, optionally one owner's, one page at a time;
    /// the echoed pagination carries the total count of matching websites,
    /// computed over the same filter as the page itself.
    pub fn list_websites(
        store: &Store,
        user_id: &Option<String>,
        pagination: Option<crate::pagination::PaginationRequest>,
    ) -> (r: Result<(Vec<Website>, crate::pagination::PaginationResponse), Status>)
        requires
            store@.wf(),
            store@.websites.len() < 0x7fff_ffff_ffff_ffff,
        ensures
            match r {
                Ok((items, page)) => {
                    let filtered = crate::store::spec_websites_filtered(
                        store@,
                        user_id.deep_view(),
                    );
                    &&& page.total_elements == filtered.len()
                    &&& exists|limit: int, offset: int|
                        {
                            let window = #[trigger] crate::store::spec_slice(
                                filtered,
                                limit,
                                offset,
                            );
                            &&& (match pagination {
                                Some(req) => limit == req.size && offset == (req.page - 1)
                                    * req.size,
                                None => limit == crate::pagination::DEFAULT_PAGE_SIZE as int
                                    && offset == 0,
                            })
                            &&& items.deep_view().len() == window.len()
                            &&& forall|k: int|
                                0 <= k < window.len() ==> items.deep_view()[k]
                                    == crate::store::spec_aggregate_of(
                                    store@,
                                    #[trigger] window[k],
                                )
                        }
                },
                Err(st) => st.code == Code::InvalidArgument || st.code == Code::Internal,
            },
    {
        let (limit, offset, mut page) =
            match crate::pagination::get_limit_offset_from_pagination(pagination) {
            Ok(v) => v,
            Err(st) => {
                return Err(st);
            },
        };
        let (items, count) = Website::list(store, user_id, limit, offset);
        let total = match crate::pagination::i64_to_u32(count) {
            Ok(v) => v,
            Err(st) => {
                return Err(st);
            },
        };
        page.total_elements = total;
        proof {
            assert(crate::store::spec_websites_filtered(store@, user_id.deep_view()).len()
                == count);
        }
        Ok((items, page))
    }

    /// Renames a website the user owns; the new name must meet the minimum
    /// length and stay unique for the owner.
    pub fn update_website(
        store: &mut Store,
        user_id: &str,
        website_id: &str,
        name: Option<String>,
    ) -> (r: Result<Website, Status>)
        requires
            old(store)@.wf(),
        ensures
            final(store)@.wf(),
            match r {
                Ok(w) => {
                    &&& (name matches Some(nm) ==> encode_utf8(nm@).len()
                        >= MINIMUM_WEBSITE_NAME_LENGTH as int)
                    &&& old(store)@.has_website_for_user(website_id@, user_id@)
                    &&& w@ == (WebsiteV {
                        name: match name {
                            Some(nm) => nm@,
                            None => crate::store::spec_website_row(old(store)@, website_id@).name,
                        },
                        updated_at: old(store)@.now,
                        ..crate::store::spec_website_row(old(store)@, website_id@)
                    })
                    &&& exists|i: int|
                        {
                            &&& 0 <= i < old(store)@.websites.len()
                            &&& (#[trigger] old(store)@.websites[i]).website_id == website_id@
                            &&& final(store)@ == (StoreV {
                                websites: old(store)@.websites.update(i, w@),
                                ..old(store)@
                            })
                        }
                },
                Err(st) => {
                    &&& *final(store) == *old(store)
                    &&& match st.code {
                        Code::InvalidArgument => name matches Some(nm) && encode_utf8(nm@).len()
                            < MINIMUM_WEBSITE_NAME_LENGTH as int && st.message@
                            == "name is too short"@,
                        Code::NotFound => (name matches Some(nm) ==> encode_utf8(nm@).len()
                            >= MINIMUM_WEBSITE_NAME_LENGTH as int) && !old(
                            store,
                        )@.has_website_for_user(website_id@, user_id@),
                        Code::AlreadyExists => {
                            &&& old(store)@.has_website_for_user(website_id@, user_id@)
                            &&& name matches Some(nm) && encode_utf8(nm@).len()
                                >= MINIMUM_WEBSITE_NAME_LENGTH as int && old(
                                store,
                            )@.has_website_named(nm@, user_id@) && crate::store::spec_website_row(
                                old(store)@,
                                website_id@,
                            ).name != nm@
                        },
                        _ => false,
                    }
                },
            },
    {
        if let Some(nm) = &name {
            let nm_bytes = nm.as_str().as_bytes();
            if nm_bytes.len() < MINIMUM_WEBSITE_NAME_LENGTH {
                return Err(Status::invalid_argument("name is too short"));
            }
        }
        match Website::update(store, website_id, user_id, &name) {
            Ok(w) => Ok(w),
            Err(e) => Err(Status::from_db_error(e)),
        }
    }

    /// Deletes a website the user owns, cascading over its customization,
    /// domains, pages and their structured documents, and returns the
    /// pre-deletion aggregate so the process embedding this crate can clean
    /// up the provider-side records the site held.
    pub fn delete_website(store: &mut Store, user_id: &str, website_id: &str) -> (r: Result<
        Website,
        Status,
    >)
        requires
            old(store)@.wf(),
        ensures
            final(store)@.wf(),
            match r {
                Ok(w) => {
                    &&& old(store)@.has_website_for_user(website_id@, user_id@)
                    &&& w@ == crate::store::spec_aggregate_of(
                        old(store)@,
                        crate::store::spec_website_row(old(store)@, website_id@),
                    )
                    &&& !final(store)@.has_website(website_id@)
                    &&& exists|i: int|
                        {
                            &&& 0 <= i < old(store)@.websites.len()
                            &&& (#[trigger] old(store)@.websites[i]).website_id == website_id@
                            &&& final(store)@ == (StoreV {
                                websites: old(store)@.websites.remove(i),
                                customizations: old(store)@.customizations.filter(
                                    crate::store::spec_customization_outside_website(
                                        website_id@,
                                        user_id@,
                                    ),
                                ),
                                domains: old(store)@.domains.filter(
                                    crate::store::spec_domain_outside_website(
                                        website_id@,
                                        user_id@,
                                    ),
                                ),
                                pages: old(store)@.pages.filter(
                                    crate::store::spec_page_outside_website(
                                        website_id@,
                                        user_id@,
                                    ),
                                ),
                                static_pages: old(store)@.static_pages.filter(
                                    crate::store::spec_static_page_outside_website(
                                        website_id@,
                                        user_id@,
                                    ),
                                ),
                                ..old(store)@
                            })
                        }
                },
                Err(st) => {
                    &&& *final(store) == *old(store)
                    &&& st.code == Code::NotFound
                    &&& !old(store)@.has_website_for_user(website_id@, user_id@)
                },
            },
    {
        let found = match Website::get_for_user(store, website_id, user_id) {
            Some(w) => w,
            None => {
                return Err(Status::not_found("Could not find website by websiteId"));
            },
        };
        let ghost s0 = store@;
        let customizations_result = Customization::delete_for_website(store, website_id, user_id);
        proof {
            assert(customizations_result is Ok);
        }
        let domains_result = Domain::delete_for_website(store, website_id, user_id);
        proof {
            assert(domains_result is Ok);
        }
        let pages_result = Page::delete_for_website(store, website_id, user_id);
        proof {
            assert(pages_result is Ok);
        }
        let static_pages_result = StaticPage::delete_for_website(store, website_id, user_id);
        proof {
            assert(static_pages_result is Ok);
        }
        let ghost s3 = store@;
        match Website::delete(store, website_id, user_id) {
            Ok(_) => {},
            Err(_e) => {
                proof {
                    assert(s3.has_website_for_user(website_id@, user_id@));
                    assert(false);
                }
                return Err(Status::not_found(""));
            },
        }
        proof {
            let k0 = choose|k: int|
                {
                    &&& 0 <= k < s3.websites.len()
                    &&& (#[trigger] s3.websites[k]).website_id == website_id@
                    &&& store@ == (StoreV { websites: s3.websites.remove(k), ..s3 })
                };
            assert(s3.websites == s0.websites);
            assert(s0.websites[k0].website_id == website_id@);
            assert(store@ == (StoreV {
                websites: s0.websites.remove(k0),
                customizations: s0.customizations.filter(
                    crate::store::spec_customization_outside_website(website_id@, user_id@),
                ),
                domains: s0.domains.filter(
                    crate::store::spec_domain_outside_website(website_id@, user_id@),
                ),
                pages: s0.pages.filter(
                    crate::store::spec_page_outside_website(website_id@, user_id@),
                ),
                static_pages: s0.static_pages.filter(
                    crate::store::spec_static_page_outside_website(website_id@, user_id@),
                ),
                ..s0
            }));
        }
        proof {
            assert forall|i: int|
                0 <= i < store@.websites.len() implies (#[trigger] store@.websites[i]).website_id
                != website_id@ by {
                let k = choose|k: int|
                    {
                        &&& 0 <= k < s3.websites.len()
                        &&& (#[trigger] s3.websites[k]).website_id == website_id@
                        &&& store@ == (StoreV { websites: s3.websites.remove(k), ..s3 })
                    };
                let i0 = if i < k {
                    i
                } else {
                    i + 1
                };
                assert(store@.websites[i] == s3.websites[i0]);
                if s3.websites[i0].website_id == website_id@ {
                    crate::store::lemma_website_row_at(s3, i0);
                    crate::store::lemma_website_row_at(s3, k);
                }
            }
        }
        Ok(found)
    }
}

/// Pagination law: two different 1-based pages of one listing — same store,
/// same owner filter, same page size — are disjoint: no website appears on
/// both.  The total the listing reports is a function of the store and the
/// filter alone, so both pages report the same total.
pub proof fn lemma_pagination_pages_disjoint(
    s: StoreV,
    user_id: Option<Seq<char>>,
    size: int,
    p1: int,
    p2: int,
)
    requires
        s.wf(),
        size >= 0,
        p1 >= 1,
        p2 >= 1,
        p1 != p2,
    ensures
        ({
            let filtered = crate::store::spec_websites_filtered(s, user_id);
            let w1 = crate::store::spec_slice(filtered, size, (p1 - 1) * size);
            let w2 = crate::store::spec_slice(filtered, size, (p2 - 1) * size);
            forall|i: int, j: int|
                0 <= i < w1.len() && 0 <= j < w2.len() ==> (#[trigger] w1[i]).website_id != (
                #[trigger] w2[j]).website_id
        }),
{
    let filtered = crate::store::spec_websites_filtered(s, user_id);
    assert forall|a: int, b: int|
        0 <= a < filtered.len() && 0 <= b < filtered.len() && a != b implies (
    #[trigger] filtered[a]).website_id != (#[trigger] filtered[b]).website_id by {
        match user_id {
            Some(u) => {
                crate::store::lemma_filter_pairwise(
                    s.websites,
                    crate::store::spec_website_owned_by(u),
                    |x: WebsiteV, y: WebsiteV| x.website_id == y.website_id,
                );
            },
            None => {
                if a < b {
                    assert(s.websites[a].website_id != s.websites[b].website_id);
                } else {
                    assert(s.websites[b].website_id != s.websites[a].website_id);
                }
            },
        }
    }
    let o1 = (p1 - 1) * size;
    let o2 = (p2 - 1) * size;
    assert(o1 + size <= o2 || o2 + size <= o1) by (nonlinear_arith)
        requires
            size >= 0,
            p1 >= 1,
            p2 >= 1,
            p1 != p2,
            o1 == (p1 - 1) * size,
            o2 == (p2 - 1) * size,
    ;
    let w1 = crate::store::spec_slice(filtered, size, o1);
    let w2 = crate::store::spec_slice(filtered, size, o2);
    assert forall|i: int, j: int|
        0 <= i < w1.len() && 0 <= j < w2.len() implies (#[trigger] w1[i]).website_id != (
    #[trigger] w2[j]).website_id by {
        let a = (if o1 <= filtered.len() {
            o1
        } else {
            filtered.len() as int
        }) + i;
        let b = (if o2 <= filtered.len() {
            o2
        } else {
            filtered.len() as int
        }) + j;
        assert(w1[i] == filtered[a] && w2[j] == filtered[b]);
        assert(a != b);
    }
}

/// Whether a page row is the home page of this website (shared with the
/// page module's invariant).
pub open spec fn spec_is_home_page_of(p: PageV, website_id: Seq<char>) -> bool {
    crate::pages::spec_is_home(p, website_id)
}

} // verus!