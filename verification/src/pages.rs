//! Page management and the home-page invariant.
//!
//! Every website has exactly one page carrying the home-page flag, and that
//! page always lives at the root path `/`.  Creating or promoting a new home
//! page demotes the previous one in the same logical operation: the old home
//! page loses the flag and moves to a path slugified from its title.  The
//! operations here state, and preserve, that invariant.

use vstd::prelude::*;

use crate::errors::{Code, Status};
use crate::model::{str_eq, Page, PageAsRel, PageType, PageV, StaticPage, Website};
use crate::store::{spec_updated_page, Store, StoreV};

verus! {

/// The root path, home of every website's home page.
pub const HOME_PAGE_PATH: &'static str = "/";

/// The title of the home page created alongside a website.
pub const DEFAULT_HOME_PAGE_TITLE: &'static str = "Home";

/// The slug that the slugifier derives from a string: lower-case ASCII
/// letters, digits and single dashes, never leading or trailing.
pub uninterp spec fn slug_of(s: Seq<char>) -> Seq<char>;

/// Relies on slug's slugifier: the result is a function of the input string
/// alone.
#[verifier::external_body]
fn slugify_str(s: &str) -> (r: String)
    ensures
        r@ == slug_of(s@),
{
    slug::slugify(s)
}

/// The path a demoted home page moves to: a slash followed by the slug of
/// its title.
pub open spec fn spec_slugified_path(title: Seq<char>) -> Seq<char> {
    seq!['/'] + slug_of(title)
}

/// A demoted home page: the flag cleared, the path slugified from the
/// title, the update timestamp refreshed.
pub open spec fn spec_demoted(p: PageV, now: i64) -> PageV {
    PageV { is_home_page: false, path: spec_slugified_path(p.title), updated_at: now, ..p }
}

/// Whether a page row is the home page of this website.
pub open spec fn spec_is_home(p: PageV, website_id: Seq<char>) -> bool {
    p.website_id == website_id && p.is_home_page
}

/// The home-page invariant for one website: exactly one page row carries the
/// home-page flag, and its path is the root path.
pub open spec fn spec_home_page_ok(s: StoreV, website_id: Seq<char>) -> bool {
    exists|i: int|
        {
            &&& 0 <= i < s.pages.len()
            &&& spec_is_home(#[trigger] s.pages[i], website_id)
            &&& s.pages[i].path == "/"@
            &&& forall|j: int|
                0 <= j < s.pages.len() && j != i ==> !spec_is_home(
                    #[trigger] s.pages[j],
                    website_id,
                )
        }
}

/// The home-page invariant across the store: it holds for every website.
pub open spec fn spec_home_pages_invariant(s: StoreV) -> bool {
    forall|k: int|
        0 <= k < s.websites.len() ==> spec_home_page_ok(
            s,
            (#[trigger] s.websites[k]).website_id,
        )
}

/// Promotion preserves the home-page invariant: after demoting the previous
/// home page (if any) and making the page at `t0` the home page at the root
/// path — all within one logical operation — every website again has exactly
/// one home page, at the root path.
proof fn lemma_promote_preserves_home_invariant(
    s0: StoreV,
    s1: StoreV,
    s2: StoreV,
    wsite: Seq<char>,
    t0: int,
    updated: PageV,
    demoted_at: int,
)
    requires
        spec_home_pages_invariant(s0),
        s2.websites == s0.websites,
        s1.pages.len() == s0.pages.len(),
        0 <= t0 < s0.pages.len(),
        s0.pages[t0].website_id == wsite,
        demoted_at < 0 ==> s1.pages == s0.pages && (forall|j: int|
            0 <= j < s0.pages.len() ==> !spec_is_home(#[trigger] s0.pages[j], wsite)),
        demoted_at >= 0 ==> 0 <= demoted_at < s0.pages.len() && spec_is_home(
            s0.pages[demoted_at],
            wsite,
        ) && s1.pages == s0.pages.update(
            demoted_at,
            spec_demoted(s0.pages[demoted_at], s0.now),
        ),
        s2.pages == s1.pages.update(t0, updated),
        updated.website_id == wsite,
        updated.is_home_page,
        updated.path == "/"@,
    ensures
        spec_home_pages_invariant(s2),
{
    assert forall|k: int|
        0 <= k < s2.websites.len() implies spec_home_page_ok(
        s2,
        (#[trigger] s2.websites[k]).website_id,
    ) by {
        let wid = s2.websites[k].website_id;
        assert(spec_home_page_ok(s0, wid));
        let h0 = choose|i: int|
            {
                &&& 0 <= i < s0.pages.len()
                &&& spec_is_home(#[trigger] s0.pages[i], wid)
                &&& s0.pages[i].path == "/"@
                &&& forall|j: int|
                    0 <= j < s0.pages.len() && j != i ==> !spec_is_home(
                        #[trigger] s0.pages[j],
                        wid,
                    )
            };
        if wid == wsite {
            assert(spec_is_home(s2.pages[t0], wid));
            assert(s2.pages[t0].path == "/"@);
            assert forall|j: int|
                0 <= j < s2.pages.len() && j != t0 implies !spec_is_home(
                #[trigger] s2.pages[j],
                wid,
            ) by {
                if demoted_at >= 0 && j == demoted_at {
                    assert(!s2.pages[j].is_home_page);
                } else if demoted_at >= 0 {
                    assert(s2.pages[j] == s0.pages[j]);
                    if j == h0 {
                        assert(spec_is_home(s0.pages[demoted_at], wid));
                        assert(demoted_at == h0);
                    }
                } else {
                    assert(s2.pages[j] == s0.pages[j]);
                    assert(!spec_is_home(s0.pages[j], wsite));
                }
            }
            assert(spec_home_page_ok(s2, wid));
        } else {
            assert(h0 != t0) by {
                assert(s0.pages[t0].website_id == wsite);
            }
            assert(s2.pages[h0] == s0.pages[h0]) by {
                if demoted_at >= 0 {
                    assert(spec_is_home(s0.pages[demoted_at], wsite));
                    assert(h0 != demoted_at);
                }
            }
            assert(spec_is_home(s2.pages[h0], wid) && s2.pages[h0].path == "/"@);
            assert forall|j: int|
                0 <= j < s2.pages.len() && j != h0 implies !spec_is_home(
                #[trigger] s2.pages[j],
                wid,
            ) by {
                if j == t0 {
                    assert(s2.pages[j].website_id == wsite);
                } else if demoted_at >= 0 && j == demoted_at {
                    assert(!s2.pages[j].is_home_page);
                } else {
                    assert(s2.pages[j] == s0.pages[j]);
                }
            }
            assert(spec_home_page_ok(s2, wid));
        }
    }
}

/// After an update of the target row at `t0` — with at most the unique home
/// page of the target's website demoted first — every row but the target is
/// unchanged, except that exactly the old home page is demoted when the
/// operation promotes.
proof fn lemma_update_frame(
    s0: StoreV,
    s1: StoreV,
    sf: StoreV,
    website: Seq<char>,
    t0: int,
    updated: PageV,
    demoted_at: int,
    promote: bool,
)
    requires
        0 <= t0 < s0.pages.len(),
        s1.pages.len() == s0.pages.len(),
        sf.pages == s1.pages.update(t0, updated),
        !promote ==> s1.pages == s0.pages,
        promote && demoted_at < 0 ==> s1.pages == s0.pages && (forall|j: int|
            0 <= j < s0.pages.len() ==> !spec_is_home(#[trigger] s0.pages[j], website)),
        promote && demoted_at >= 0 ==> 0 <= demoted_at < s0.pages.len() && spec_is_home(
            s0.pages[demoted_at],
            website,
        ) && s1.pages == s0.pages.update(
            demoted_at,
            spec_demoted(s0.pages[demoted_at], s0.now),
        ),
    ensures
        forall|j: int|
            0 <= j < s0.pages.len() && j != t0 && !(promote && spec_is_home(
                s0.pages[j],
                website,
            )) ==> (#[trigger] sf.pages[j]) == s0.pages[j],
        promote && spec_home_page_ok(s0, website) ==> forall|j: int|
            0 <= j < s0.pages.len() && j != t0 && spec_is_home(s0.pages[j], website)
                ==> (#[trigger] sf.pages[j]) == spec_demoted(s0.pages[j], s0.now),
{
    assert forall|j: int|
        0 <= j < s0.pages.len() && j != t0 && !(promote && spec_is_home(
            s0.pages[j],
            website,
        )) implies (#[trigger] sf.pages[j]) == s0.pages[j] by {
        assert(sf.pages[j] == s1.pages[j]);
        if promote && demoted_at >= 0 {
            assert(j != demoted_at);
            assert(s1.pages[j] == s0.pages[j]);
        } else {
            assert(s1.pages[j] == s0.pages[j]);
        }
    }
    if promote && spec_home_page_ok(s0, website) {
        let h0 = choose|i: int|
            {
                &&& 0 <= i < s0.pages.len()
                &&& spec_is_home(#[trigger] s0.pages[i], website)
                &&& s0.pages[i].path == "/"@
                &&& forall|j: int|
                    0 <= j < s0.pages.len() && j != i ==> !spec_is_home(
                        #[trigger] s0.pages[j],
                        website,
                    )
            };
        assert forall|j: int|
            0 <= j < s0.pages.len() && j != t0 && spec_is_home(s0.pages[j], website) implies (
        #[trigger] sf.pages[j]) == spec_demoted(s0.pages[j], s0.now) by {
            assert(sf.pages[j] == s1.pages[j]);
            if demoted_at >= 0 {
                assert(j == h0);
                assert(demoted_at == h0);
            } else {
                assert(!spec_is_home(s0.pages[j], website));
                assert(false);
            }
        }
    }
}

/// A page as serialized on responses.
#[derive(Clone, Debug)]
pub struct PageResponse {
    pub page_id: i64,
    pub page_type: PageType,
    pub content_id: String,
    pub title: String,
    pub is_home_page: bool,
    pub path: String,
}

/// Page operations over the store.
pub struct PageService {}

impl PageService {
    /// The response form of a page child row; `None` exactly when the stored
    /// page-type string is not a known type name.
    pub fn to_response(page: &PageAsRel) -> (r: Option<PageResponse>)
        ensures
            match r {
                Some(resp) => {
                    &&& resp.page_id == page.page_id
                    &&& page.page_type@ == crate::model::spec_page_type_name(resp.page_type)
                    &&& resp.content_id@ == page.content_id@
                    &&& resp.title@ == page.title@
                    &&& resp.is_home_page == page.is_home_page
                    &&& resp.path@ == page.path@
                },
                None => forall|t: PageType|
                    page.page_type@ != crate::model::spec_page_type_name(t),
            },
    {
        match PageType::from_str_name(page.page_type.as_str()) {
            Some(page_type) => Some(
                PageResponse {
                    page_id: page.page_id,
                    page_type,
                    content_id: page.content_id.clone(),
                    title: page.title.clone(),
                    is_home_page: page.is_home_page,
                    path: page.path.clone(),
                },
            ),
            None => None,
        }
    }

    /// Parses the numeric page type of a request: an unknown tag and the
    /// unspecified type are both rejected with `InvalidArgument`.
    pub fn page_type_from_request(tag: i32) -> (r: Result<PageType, Status>)
        ensures
            match r {
                Ok(t) => tag == 1 && t == PageType::Static,
                Err(st) => {
                    &&& tag != 1
                    &&& st.code == Code::InvalidArgument
                    &&& st.message@ == (if tag == 0 {
                        "Please provide known page type"@
                    } else {
                        "Unknown page type"@
                    })
                },
            },
    {
        match PageType::from_i32(tag) {
            None => Err(Status::invalid_argument("Unknown page type")),
            Some(PageType::Unspecified) => Err(
                Status::invalid_argument("Please provide known page type"),
            ),
            Some(t) => Ok(t),
        }
    }

    /// The path derived from a title: a slash followed by its slug.
    pub fn get_slugified_path(title: &str) -> (r: String)
        ensures
            r@ == spec_slugified_path(title@),
    {
        let mut path = String::from_str("/");
        let slug = slugify_str(title);
        path.append(slug.as_str());
        proof {
            reveal_strlit("/");
            assert("/"@ =~= seq!['/']);
        }
        path
    }

    /// Demotes the current home page of a website, if one exists: the flag
    /// is cleared and the page moves to a path slugified from its title.
    /// Always paired with the promotion of a new home page, so that the
    /// home-page invariant is restored within the same logical operation.
    pub fn make_current_home_page_not_home_page(
        store: &mut Store,
        website_id: &str,
        user_id: &str,
    ) -> (r: Result<(), Status>)
        requires
            old(store)@.wf(),
        ensures
            final(store)@.wf(),
            final(store)@.websites == old(store)@.websites,
            final(store)@.domains == old(store)@.domains,
            final(store)@.customizations == old(store)@.customizations,
            final(store)@.static_pages == old(store)@.static_pages,
            match r {
                Ok(()) => (*final(store) == *old(store) && forall|j: int|
                    0 <= j < old(store)@.pages.len() ==> !spec_is_home(
                        #[trigger] old(store)@.pages[j],
                        website_id@,
                    )) || exists|k: int|
                    {
                        &&& 0 <= k < old(store)@.pages.len()
                        &&& spec_is_home(#[trigger] old(store)@.pages[k], website_id@)
                        &&& old(store)@.pages[k].user_id == user_id@
                        &&& final(store)@ == (StoreV {
                            pages: old(store)@.pages.update(
                                k,
                                spec_demoted(old(store)@.pages[k], old(store)@.now),
                            ),
                            ..old(store)@
                        })
                    },
                Err(st) => {
                    &&& *final(store) == *old(store)
                    &&& st.code == Code::NotFound
                    &&& exists|k: int|
                        0 <= k < old(store)@.pages.len() && spec_is_home(
                            #[trigger] old(store)@.pages[k],
                            website_id@,
                        ) && old(store)@.pages[k].user_id != user_id@
                },
            },
    {
        let ghost s0 = store@;
        let current = match Page::get_home_page(store, website_id) {
            Some(h) => h,
            None => {
                return Ok(());
            },
        };
        let slug_path = Self::get_slugified_path(current.title.as_str());
        match Page::update(
            store,
            current.page_id,
            user_id,
            None,
            None,
            None,
            Some(false),
            Some(slug_path),
        ) {
            Ok(_) => {
                proof {
                    let i = choose|i: int|
                        {
                            &&& 0 <= i < s0.pages.len()
                            &&& (#[trigger] s0.pages[i]) == current@
                            &&& forall|j: int|
                                0 <= j < i ==> !((#[trigger] s0.pages[j]).website_id == website_id@
                                    && s0.pages[j].is_home_page)
                        };
                    let k = choose|k: int|
                        {
                            &&& 0 <= k < s0.pages.len()
                            &&& (#[trigger] s0.pages[k]).page_id == current@.page_id
                            &&& s0.pages[k].user_id == user_id@
                            &&& store@ == (StoreV {
                                pages: s0.pages.update(
                                    k,
                                    PageV {
                                        is_home_page: false,
                                        path: slug_path@,
                                        updated_at: s0.now,
                                        ..s0.pages[k]
                                    },
                                ),
                                ..s0
                            })
                        };
                    crate::store::lemma_page_ids_unique(s0, i, k);
                    assert(spec_is_home(s0.pages[k], website_id@));
                    assert(spec_demoted(s0.pages[k], s0.now) == (PageV {
                        is_home_page: false,
                        path: slug_path@,
                        updated_at: s0.now,
                        ..s0.pages[k]
                    }));
                }
                Ok(())
            },
            Err(e) => {
                proof {
                    let i = choose|i: int|
                        0 <= i < s0.pages.len() && (#[trigger] s0.pages[i]) == current@;
                    assert(!(s0.pages[i].page_id == current@.page_id && s0.pages[i].user_id
                        == user_id@));
                    assert(spec_is_home(s0.pages[i], website_id@));
                }
                Err(Status::from_db_error(e))
            },
        }
    }

    /// Creates a page on a website the user owns.  When the page is created
    /// as the home page, the previous home page is demoted in the same
    /// logical operation and the new page lives at the root path; otherwise
    /// it lives at the given path, or at a path slugified from its title.
    /// A static page receives an empty structured document.
    ///
    /// Together with the demotion this preserves the home-page invariant:
    /// after the call — whether it succeeded or failed — every website still
    /// has exactly one home page, at the root path.
    #[allow(clippy::too_many_arguments)]
    pub fn create_page(
        store: &mut Store,
        user_id: &str,
        website_id: &str,
        page_type_tag: i32,
        content_id: &str,
        title: &str,
        is_home_page: bool,
        path: Option<String>,
    ) -> (r: Result<Page, Status>)
        requires
            old(store)@.wf(),
        ensures
            final(store)@.wf(),
            spec_home_pages_invariant(old(store)@) ==> spec_home_pages_invariant(final(store)@),
            match r {
                Ok(p) => {
                    &&& page_type_tag == 1
                    &&& old(store)@.has_website_for_user(website_id@, user_id@)
                    &&& p@ == (PageV {
                        page_id: old(store)@.next_page_id,
                        website_id: website_id@,
                        user_id: user_id@,
                        created_at: old(store)@.now,
                        updated_at: old(store)@.now,
                        page_type: PageType::Static,
                        content_id: content_id@,
                        title: title@,
                        is_home_page,
                        path: if is_home_page {
                            "/"@
                        } else {
                            match path {
                                Some(pp) => pp@,
                                None => spec_slugified_path(title@),
                            }
                        },
                    })
                    &&& final(store)@.websites == old(store)@.websites
                    &&& final(store)@.domains == old(store)@.domains
                    &&& final(store)@.customizations == old(store)@.customizations
                    &&& final(store)@.pages.len() == old(store)@.pages.len() + 1
                    &&& final(store)@.pages.last() == p@
                    &&& (!is_home_page ==> final(store)@.pages == old(store)@.pages.push(p@))
                    &&& forall|j: int|
                        0 <= j < old(store)@.pages.len() ==> ((#[trigger] final(store)@.pages[j])
                            == old(store)@.pages[j] || (is_home_page && final(store)@.pages[j]
                            == spec_demoted(old(store)@.pages[j], old(store)@.now)))
                    // when the website's home page is unique, the demotion is
                    // pinned: exactly the old home page moves, all else stays
                    &&& (spec_home_page_ok(old(store)@, website_id@) ==> forall|j: int|
                        0 <= j < old(store)@.pages.len() ==> (#[trigger] final(store)@.pages[j])
                            == (if is_home_page && spec_is_home(old(store)@.pages[j], website_id@) {
                            spec_demoted(old(store)@.pages[j], old(store)@.now)
                        } else {
                            old(store)@.pages[j]
                        }))
                    // the new page's structured document is created with it
                    &&& final(store)@.static_pages == old(store)@.static_pages.push(
                        crate::model::StaticPageV {
                            page_id: p@.page_id,
                            website_id: website_id@,
                            user_id: user_id@,
                            created_at: old(store)@.now,
                            updated_at: old(store)@.now,
                            components: "[]"@,
                        },
                    )
                },
                Err(st) => {
                    &&& *final(store) == *old(store)
                    &&& match st.code {
                        Code::InvalidArgument => page_type_tag != 1,
                        Code::NotFound => page_type_tag == 1 && (!old(
                            store,
                        )@.has_website_for_user(website_id@, user_id@) || (old(
                            store,
                        )@.next_page_id < i64::MAX && is_home_page && exists|k: int|
                            0 <= k < old(store)@.pages.len() && spec_is_home(
                                #[trigger] old(store)@.pages[k],
                                website_id@,
                            ) && old(store)@.pages[k].user_id != user_id@)),
                        Code::Internal => page_type_tag == 1 && old(store)@.has_website_for_user(
                            website_id@,
                            user_id@,
                        ) && old(store)@.next_page_id == i64::MAX,
                        _ => false,
                    }
                },
            },
    {
        let page_type = match Self::page_type_from_request(page_type_tag) {
            Ok(t) => t,
            Err(st) => {
                return Err(st);
            },
        };
        if Website::get_for_user(store, website_id, user_id).is_none() {
            return Err(Status::not_found("Could not find website"));
        }
        if store.next_page_id == i64::MAX {
            return Err(Status { code: Code::Internal, message: String::new() });
        }
        let ghost s0 = store@;
        let new_path: String = if is_home_page {
            match Self::make_current_home_page_not_home_page(store, website_id, user_id) {
                Ok(()) => {},
                Err(st) => {
                    return Err(Status { code: Code::NotFound, message: st.message });
                },
            }
            String::from_str(HOME_PAGE_PATH)
        } else {
            match path {
                Some(pp) => pp,
                None => Self::get_slugified_path(title),
            }
        };
        let ghost s1 = store@;
        let ghost demote_case = |c: int|
            {
                &&& 0 <= c < s0.pages.len()
                &&& spec_is_home(s0.pages[c], website_id@)
                &&& s0.pages[c].user_id == user_id@
                &&& s1 == (StoreV {
                    pages: s0.pages.update(c, spec_demoted(s0.pages[c], s0.now)),
                    ..s0
                })
            };
        let ghost demoted_at: int = if is_home_page && exists|c: int| #[trigger] demote_case(c) {
            choose|c: int| #[trigger] demote_case(c)
        } else {
            -1
        };
        proof {
            if is_home_page {
                if !(exists|c: int| #[trigger] demote_case(c)) {
                    // the demotion's contract either left the store alone with
                    // no home page of this website anywhere, or demoted one —
                    // and a demoted one would witness a demote case
                    if exists|k: int|
                        {
                            &&& 0 <= k < s0.pages.len()
                            &&& spec_is_home(#[trigger] s0.pages[k], website_id@)
                            &&& s0.pages[k].user_id == user_id@
                            &&& s1 == (StoreV {
                                pages: s0.pages.update(k, spec_demoted(s0.pages[k], s0.now)),
                                ..s0
                            })
                        } {
                        let k = choose|k: int|
                            {
                                &&& 0 <= k < s0.pages.len()
                                &&& spec_is_home(#[trigger] s0.pages[k], website_id@)
                                &&& s0.pages[k].user_id == user_id@
                                &&& s1 == (StoreV {
                                    pages: s0.pages.update(
                                        k,
                                        spec_demoted(s0.pages[k], s0.now),
                                    ),
                                    ..s0
                                })
                            };
                        assert(demote_case(k));
                        assert(false);
                    }
                    assert(s1 == s0);
                    assert(forall|j: int|
                        0 <= j < s0.pages.len() ==> !spec_is_home(
                            #[trigger] s0.pages[j],
                            website_id@,
                        ));
                } else {
                    assert(demote_case(demoted_at));
                }
            } else {
                assert(s1 == s0);
            }
        }
        let created = match Page::create(
            store,
            website_id,
            user_id,
            page_type,
            content_id,
            title,
            is_home_page,
            new_path.as_str(),
        ) {
            Ok(p) => p,
            Err(e) => {
                proof {
                    // the website exists and the id space was checked, so
                    // the insert cannot fail
                    assert(s1.has_website(website_id@));
                    assert(false);
                }
                return Err(Status::from_db_error(e));
            },
        };
        let ghost s2 = store@;
        proof {
            // the new page's id is fresh, so no document row can carry it yet
            assert forall|i: int| 0 <= i < s2.static_pages.len() implies (
            #[trigger] s2.static_pages[i]).page_id != created@.page_id by {
                assert(s2.static_pages[i] == s1.static_pages[i]);
                assert(0 < s1.static_pages[i].page_id < s1.next_page_id);
            }
        }
        match Self::ensure_static_page(store, created.page_id, website_id, user_id) {
            Ok(()) => {},
            Err(_st) => {
                proof {
                    // the page row was just inserted, so the document insert
                    // cannot hit a missing parent
                    assert(s2.pages.last().page_id == created.page_id);
                    assert(false);
                }
                return Err(Status { code: Code::Internal, message: String::new() });
            },
        }
        proof {
            assert(store@.static_pages =~= s0.static_pages.push(
                crate::model::StaticPageV {
                    page_id: created@.page_id,
                    website_id: website_id@,
                    user_id: user_id@,
                    created_at: s0.now,
                    updated_at: s0.now,
                    components: "[]"@,
                },
            ));
        }
        proof {
            reveal_strlit("/");
            if is_home_page {
                assert(new_path@ =~= "/"@);
            }
            if spec_home_pages_invariant(s0) {
                assert forall|k: int|
                    0 <= k < store@.websites.len() implies spec_home_page_ok(
                    store@,
                    (#[trigger] store@.websites[k]).website_id,
                ) by {
                    let wid = store@.websites[k].website_id;
                    assert(spec_home_page_ok(s0, wid));
                    let h0 = choose|i: int|
                        {
                            &&& 0 <= i < s0.pages.len()
                            &&& spec_is_home(#[trigger] s0.pages[i], wid)
                            &&& s0.pages[i].path == "/"@
                            &&& forall|j: int|
                                0 <= j < s0.pages.len() && j != i ==> !spec_is_home(
                                    #[trigger] s0.pages[j],
                                    wid,
                                )
                        };
                    let newest = s2.pages.len() - 1;
                    if is_home_page {
                        if wid == website_id@ {
                            // the new page is the unique home page
                            assert(spec_is_home(store@.pages[newest], wid));
                            assert(store@.pages[newest].path == "/"@);
                            assert forall|j: int|
                                0 <= j < store@.pages.len() && j != newest implies !spec_is_home(
                                #[trigger] store@.pages[j],
                                wid,
                            ) by {
                                if demoted_at >= 0 && j == demoted_at {
                                    assert(demote_case(demoted_at));
                                    assert(!store@.pages[j].is_home_page);
                                } else if demoted_at >= 0 {
                                    assert(demote_case(demoted_at));
                                    assert(store@.pages[j] == s0.pages[j]);
                                    if j != h0 {
                                    } else {
                                        // h0 is the home page of this very
                                        // website, so the demotion hit it
                                        assert(spec_is_home(s0.pages[demoted_at], wid));
                                        assert(demoted_at == h0);
                                    }
                                } else {
                                    // no page of this website was the home
                                    // page before, contradicting the
                                    // invariant, or nothing was demoted
                                    assert(s1 == s0);
                                    assert(store@.pages[j] == s0.pages[j]);
                                    if j == h0 {
                                        assert(forall|c: int| !(#[trigger] demote_case(c)));
                                        assert(!demote_case(h0));
                                        assert(spec_is_home(s0.pages[h0], wid) && s0.pages[
                                        h0].user_id != user_id@ || !spec_is_home(
                                            s0.pages[h0],
                                            website_id@,
                                        ) || s1 != (StoreV {
                                            pages: s0.pages.update(
                                                h0,
                                                spec_demoted(s0.pages[h0], s0.now),
                                            ),
                                            ..s0
                                        }));
                                    }
                                }
                            }
                            assert(spec_home_page_ok(store@, wid));
                        } else {
                            // an unrelated website keeps its home page
                            assert(!spec_is_home(s0.pages[h0], website_id@));
                            assert(store@.pages[h0] == s0.pages[h0]) by {
                                if demoted_at >= 0 {
                                    assert(demote_case(demoted_at));
                                    assert(spec_is_home(s0.pages[demoted_at], website_id@));
                                    assert(h0 != demoted_at);
                                } else {
                                    assert(s1 == s0);
                                }
                            }
                            assert(spec_is_home(store@.pages[h0], wid) && store@.pages[h0].path
                                == "/"@);
                            assert forall|j: int|
                                0 <= j < store@.pages.len() && j != h0 implies !spec_is_home(
                                #[trigger] store@.pages[j],
                                wid,
                            ) by {
                                if j == newest {
                                    assert(store@.pages[j].website_id == website_id@);
                                } else if demoted_at >= 0 && j == demoted_at {
                                    assert(demote_case(demoted_at));
                                    assert(!store@.pages[j].is_home_page);
                                } else {
                                    assert(store@.pages[j] == s0.pages[j]);
                                }
                            }
                            assert(spec_home_page_ok(store@, wid));
                        }
                    } else {
                        // no page changed its flag; the old home page stands
                        assert(store@.pages[h0] == s0.pages[h0]);
                        assert forall|j: int|
                            0 <= j < store@.pages.len() && j != h0 implies !spec_is_home(
                            #[trigger] store@.pages[j],
                            wid,
                        ) by {
                            if j == newest {
                                assert(!store@.pages[j].is_home_page);
                            } else {
                                assert(store@.pages[j] == s0.pages[j]);
                            }
                        }
                        assert(spec_home_page_ok(store@, wid));
                    }
                }
            }
            // with the home page unique, the demotion is pinned exactly
            if spec_home_page_ok(s0, website_id@) {
                let h0 = choose|i: int|
                    {
                        &&& 0 <= i < s0.pages.len()
                        &&& spec_is_home(#[trigger] s0.pages[i], website_id@)
                        &&& s0.pages[i].path == "/"@
                        &&& forall|j: int|
                            0 <= j < s0.pages.len() && j != i ==> !spec_is_home(
                                #[trigger] s0.pages[j],
                                website_id@,
                            )
                    };
                assert forall|j: int| 0 <= j < s0.pages.len() implies (
                #[trigger] store@.pages[j]) == (if is_home_page && spec_is_home(
                    s0.pages[j],
                    website_id@,
                ) {
                    spec_demoted(s0.pages[j], s0.now)
                } else {
                    s0.pages[j]
                }) by {
                    assert(store@.pages[j] == s1.pages[j]);
                    if is_home_page {
                        if demoted_at >= 0 {
                            assert(demote_case(demoted_at));
                            if j != demoted_at {
                                assert(s1.pages[j] == s0.pages[j]);
                                if spec_is_home(s0.pages[j], website_id@) {
                                    assert(j == h0);
                                    assert(spec_is_home(s0.pages[demoted_at], website_id@));
                                    assert(demoted_at == h0);
                                    assert(false);
                                }
                            }
                        } else {
                            assert(s1 == s0);
                            assert(!spec_is_home(s0.pages[j], website_id@));
                        }
                    } else {
                        assert(s1 == s0);
                    }
                }
            }
        }
        Ok(created)
    }

    /// Applies an update to a fetched page row, demoting the previous home
    /// page first when the update promotes the row to home page.  The two
    /// writes form one logical operation, so the home-page invariant is
    /// preserved.
    #[allow(clippy::too_many_arguments)]
    #[verifier::rlimit(100)]
    #[verifier::spinoff_prover]
    fn apply_page_update(
        store: &mut Store,
        user_id: &str,
        page_id: i64,
        website_id: &str,
        found: Ghost<PageV>,
        set_static: bool,
        content_id: Option<String>,
        title: Option<String>,
        is_home_page: Option<bool>,
        path: Option<String>,
    ) -> (r: Result<Page, Status>)
        requires
            old(store)@.wf(),
            old(store)@.pages.contains(found@),
            found@.page_id == page_id,
            found@.user_id == user_id@,
            found@.website_id == website_id@,
        ensures
            final(store)@.wf(),
            final(store)@.websites == old(store)@.websites,
            final(store)@.domains == old(store)@.domains,
            final(store)@.customizations == old(store)@.customizations,
            final(store)@.static_pages == old(store)@.static_pages,
            final(store)@.now == old(store)@.now,
            (spec_home_pages_invariant(old(store)@) && is_home_page == Some(true))
                ==> spec_home_pages_invariant(final(store)@),
            match r {
                Ok(p) => {
                    &&& p@.page_id == page_id
                    &&& p@.user_id == user_id@
                    &&& p@.website_id == website_id@
                    &&& p@.updated_at == old(store)@.now
                    &&& (is_home_page == Some(true) ==> p@.is_home_page && p@.path == "/"@)
                    &&& final(store)@.pages.len() == old(store)@.pages.len()
                    &&& p@ == spec_updated_page(
                        found@,
                        if set_static {
                            Some(PageType::Static)
                        } else {
                            None
                        },
                        content_id.deep_view(),
                        title.deep_view(),
                        is_home_page,
                        if is_home_page == Some(true) {
                            Some("/"@)
                        } else {
                            path.deep_view()
                        },
                        old(store)@.now,
                    )
                    &&& exists|t: int|
                        {
                            &&& 0 <= t < old(store)@.pages.len()
                            &&& (#[trigger] old(store)@.pages[t]) == found@
                            &&& final(store)@.pages[t] == p@
                        }
                    // every row but the target stays, except the demotion
                    &&& (forall|j: int|
                        0 <= j < old(store)@.pages.len() && (#[trigger] old(store)@.pages[j])
                            != found@ && !(is_home_page == Some(true) && spec_is_home(
                            old(store)@.pages[j],
                            found@.website_id,
                        )) ==> final(store)@.pages[j] == old(store)@.pages[j])
                    // with the home page unique, it is demoted exactly
                    &&& (is_home_page == Some(true) && spec_home_page_ok(
                        old(store)@,
                        found@.website_id,
                    ) ==> forall|j: int|
                        0 <= j < old(store)@.pages.len() && (#[trigger] old(store)@.pages[j])
                            != found@ && spec_is_home(old(store)@.pages[j], found@.website_id)
                            ==> final(store)@.pages[j] == spec_demoted(
                            old(store)@.pages[j],
                            old(store)@.now,
                        ))
                },
                Err(st) => {
                    &&& *final(store) == *old(store)
                    &&& st.code == Code::NotFound
                    &&& is_home_page == Some(true)
                    &&& exists|k: int|
                        0 <= k < old(store)@.pages.len() && spec_is_home(
                            #[trigger] old(store)@.pages[k],
                            found@.website_id,
                        ) && old(store)@.pages[k].user_id != user_id@
                },
            },
    {
        let ghost s0 = store@;
        let promote = match is_home_page {
            Some(true) => true,
            _ => false,
        };
        let ghost website = found@.website_id;
        let effective_path: Option<String> = if promote {
            match Self::make_current_home_page_not_home_page(store, website_id, user_id) {
                Ok(()) => {},
                Err(st) => {
                    return Err(Status { code: Code::NotFound, message: st.message });
                },
            }
            Some(String::from_str("/"))
        } else {
            path
        };
        let ghost s1 = store@;
        let ghost demote_case = |c: int|
            {
                &&& 0 <= c < s0.pages.len()
                &&& spec_is_home(s0.pages[c], website)
                &&& s0.pages[c].user_id == user_id@
                &&& s1 == (StoreV {
                    pages: s0.pages.update(c, spec_demoted(s0.pages[c], s0.now)),
                    ..s0
                })
            };
        let ghost demoted_at: int = if promote && exists|c: int| #[trigger] demote_case(c) {
            choose|c: int| #[trigger] demote_case(c)
        } else {
            -1
        };
        proof {
            if promote {
                if !(exists|c: int| #[trigger] demote_case(c)) {
                    // the demotion's contract either left the store alone with
                    // no home page of this website anywhere, or demoted one —
                    // and a demoted one would witness a demote case
                    if exists|k: int|
                        {
                            &&& 0 <= k < s0.pages.len()
                            &&& spec_is_home(#[trigger] s0.pages[k], website)
                            &&& s0.pages[k].user_id == user_id@
                            &&& s1 == (StoreV {
                                pages: s0.pages.update(k, spec_demoted(s0.pages[k], s0.now)),
                                ..s0
                            })
                        } {
                        let k = choose|k: int|
                            {
                                &&& 0 <= k < s0.pages.len()
                                &&& spec_is_home(#[trigger] s0.pages[k], website)
                                &&& s0.pages[k].user_id == user_id@
                                &&& s1 == (StoreV {
                                    pages: s0.pages.update(
                                        k,
                                        spec_demoted(s0.pages[k], s0.now),
                                    ),
                                    ..s0
                                })
                            };
                        assert(demote_case(k));
                        assert(false);
                    }
                    assert(s1 == s0);
                    assert(forall|j: int|
                        0 <= j < s0.pages.len() ==> !spec_is_home(
                            #[trigger] s0.pages[j],
                            website,
                        ));
                } else {
                    assert(demote_case(demoted_at));
                }
            } else {
                assert(s1 == s0);
            }
        }
        let page_type: Option<PageType> = if set_static {
            Some(PageType::Static)
        } else {
            None
        };
        let ghost content_v = content_id.deep_view();
        let ghost title_v = title.deep_view();
        let ghost epath_v = effective_path.deep_view();
        let updated = match Page::update(
            store,
            page_id,
            user_id,
            page_type,
            content_id,
            title,
            is_home_page,
            effective_path,
        ) {
            Ok(p) => p,
            Err(_e) => {
                proof {
                    let t0 = choose|t0: int|
                        0 <= t0 < s0.pages.len() && (#[trigger] s0.pages[t0]) == found@;
                    assert(s1.pages[t0].page_id == page_id && s1.pages[t0].user_id == user_id@);
                    assert(false);
                }
                return Err(Status { code: Code::NotFound, message: String::new() });
            },
        };
        proof {
            reveal_strlit("/");
            let t0 = choose|t0: int|
                0 <= t0 < s0.pages.len() && (#[trigger] s0.pages[t0]) == found@;
            let t1 = choose|t1: int|
                {
                    &&& 0 <= t1 < s1.pages.len()
                    &&& (#[trigger] s1.pages[t1]).page_id == page_id
                    &&& s1.pages[t1].user_id == user_id@
                    &&& updated@ == spec_updated_page(
                        s1.pages[t1],
                        if set_static {
                            Some(PageType::Static)
                        } else {
                            None
                        },
                        content_v,
                        title_v,
                        is_home_page,
                        epath_v,
                        s1.now,
                    )
                    &&& store@ == (StoreV { pages: s1.pages.update(t1, updated@), ..s1 })
                };
            crate::store::lemma_page_ids_unique(s0, t0, t1);
            assert(store@.pages[t0] == updated@);
            // the returned row is the target row with the requested fields
            // replaced; a self-promotion's demotion is wholly overwritten
            if promote {
                assert(epath_v == Some("/"@));
                if demoted_at >= 0 {
                    assert(demote_case(demoted_at));
                    if demoted_at == t0 {
                        assert(s1.pages[t0] == spec_demoted(s0.pages[t0], s0.now));
                    } else {
                        assert(s1.pages[t0] == s0.pages[t0]);
                    }
                } else {
                    assert(s1.pages[t0] == s0.pages[t0]);
                }
                assert(updated@ == spec_updated_page(
                    found@,
                    if set_static {
                        Some(PageType::Static)
                    } else {
                        None
                    },
                    content_v,
                    title_v,
                    is_home_page,
                    Some("/"@),
                    s0.now,
                ));
            } else {
                assert(s1.pages[t0] == s0.pages[t0]);
            }
            // the frame: pages other than the target are untouched, except a
            // pinned demotion when the website's home page is unique
            if promote && demoted_at >= 0 {
                assert(demote_case(demoted_at));
            }
            lemma_update_frame(
                s0,
                s1,
                store@,
                found@.website_id,
                t0,
                updated@,
                demoted_at,
                promote,
            );
            assert forall|j: int|
                0 <= j < s0.pages.len() && (#[trigger] s0.pages[j]) != found@ && !(is_home_page
                    == Some(true) && spec_is_home(s0.pages[j], found@.website_id)) implies store@
                .pages[j] == s0.pages[j] by {
                assert(j != t0);
            }
            if promote && spec_home_page_ok(s0, found@.website_id) {
                assert forall|j: int|
                    0 <= j < s0.pages.len() && (#[trigger] s0.pages[j]) != found@ && spec_is_home(
                        s0.pages[j],
                        found@.website_id,
                    ) implies store@.pages[j] == spec_demoted(s0.pages[j], s0.now) by {
                    assert(j != t0);
                }
            }
            if spec_home_pages_invariant(s0) && promote {
                if demoted_at >= 0 {
                    assert(demote_case(demoted_at));
                } else {
                    assert(s1 == s0);
                    assert forall|j: int|
                        0 <= j < s0.pages.len() implies !spec_is_home(
                        #[trigger] s0.pages[j],
                        website,
                    ) by {
                        if spec_is_home(s0.pages[j], website) {
                            assert(!demote_case(j));
                        }
                    }
                }
                lemma_promote_preserves_home_invariant(
                    s0,
                    s1,
                    store@,
                    website,
                    t0,
                    updated@,
                    demoted_at,
                );
            }
        }
        Ok(updated)
    }

    /// Updates a page the user owns; each given field replaces the stored
    /// one.  Promoting a page to home page demotes the previous home page in
    /// the same logical operation and forces the promoted page onto the root
    /// path, preserving the home-page invariant; a page newly made static
    /// receives an empty structured document.
    #[allow(clippy::too_many_arguments)]
    #[verifier::rlimit(100)]
    #[verifier::spinoff_prover]
    pub fn update_page(
        store: &mut Store,
        user_id: &str,
        page_id: i64,
        page_type_tag: Option<i32>,
        content_id: Option<String>,
        title: Option<String>,
        is_home_page: Option<bool>,
        path: Option<String>,
    ) -> (r: Result<Page, Status>)
        requires
            old(store)@.wf(),
        ensures
            final(store)@.wf(),
            (spec_home_pages_invariant(old(store)@) && is_home_page == Some(true))
                ==> spec_home_pages_invariant(final(store)@),
            final(store)@.websites == old(store)@.websites,
            final(store)@.domains == old(store)@.domains,
            final(store)@.customizations == old(store)@.customizations,
            match r {
                Ok(p) => {
                    &&& p@.page_id == page_id
                    &&& p@.user_id == user_id@
                    &&& p@.updated_at == old(store)@.now
                    &&& (is_home_page == Some(true) ==> p@.is_home_page && p@.path == "/"@)
                    &&& final(store)@.pages.len() == old(store)@.pages.len()
                    &&& exists|t: int|
                        {
                            &&& 0 <= t < old(store)@.pages.len()
                            &&& (#[trigger] old(store)@.pages[t]).page_id == page_id
                            &&& old(store)@.pages[t].user_id == user_id@
                            &&& final(store)@.pages[t] == p@
                            &&& p@ == spec_updated_page(
                                old(store)@.pages[t],
                                match page_type_tag {
                                    Some(_) => Some(PageType::Static),
                                    None => None,
                                },
                                content_id.deep_view(),
                                title.deep_view(),
                                is_home_page,
                                if is_home_page == Some(true) {
                                    Some("/"@)
                                } else {
                                    path.deep_view()
                                },
                                old(store)@.now,
                            )
                        }
                    // the new page's structured document is created when the
                    // update makes it static and none exists
                    &&& final(store)@.static_pages == (match page_type_tag {
                        Some(_) => if exists|i: int|
                            0 <= i < old(store)@.static_pages.len() && (#[trigger] old(
                                store,
                            )@.static_pages[i]).page_id == page_id {
                            old(store)@.static_pages
                        } else {
                            old(store)@.static_pages.push(
                                crate::model::StaticPageV {
                                    page_id,
                                    website_id: p@.website_id,
                                    user_id: user_id@,
                                    created_at: old(store)@.now,
                                    updated_at: old(store)@.now,
                                    components: "[]"@,
                                },
                            )
                        },
                        None => old(store)@.static_pages,
                    })
                    // the old home page of the page's website is demoted when
                    // the update promotes, and nothing else moves
                    &&& (forall|j: int|
                        0 <= j < old(store)@.pages.len() && (#[trigger] old(
                            store,
                        )@.pages[j]).page_id != page_id && !(is_home_page == Some(true)
                            && spec_is_home(old(store)@.pages[j], p@.website_id))
                            ==> final(store)@.pages[j] == old(store)@.pages[j])
                    &&& (is_home_page == Some(true) && spec_home_page_ok(
                        old(store)@,
                        p@.website_id,
                    ) ==> forall|j: int|
                        0 <= j < old(store)@.pages.len() && (#[trigger] old(
                            store,
                        )@.pages[j]).page_id != page_id && spec_is_home(
                            old(store)@.pages[j],
                            p@.website_id,
                        ) ==> final(store)@.pages[j] == spec_demoted(
                            old(store)@.pages[j],
                            old(store)@.now,
                        ))
                },
                Err(st) => {
                    &&& *final(store) == *old(store)
                    &&& match st.code {
                        Code::InvalidArgument => page_type_tag matches Some(tag) && tag != 1,
                        Code::NotFound => (page_type_tag matches Some(tag) ==> tag == 1) && ((
                        forall|t: int|
                            0 <= t < old(store)@.pages.len() ==> !((
                            #[trigger] old(store)@.pages[t]).page_id == page_id && old(
                                store,
                            )@.pages[t].user_id == user_id@)) || (is_home_page == Some(true)
                            && exists|t: int|
                            {
                                &&& 0 <= t < old(store)@.pages.len()
                                &&& (#[trigger] old(store)@.pages[t]).page_id == page_id
                                &&& old(store)@.pages[t].user_id == user_id@
                                &&& exists|k: int|
                                    0 <= k < old(store)@.pages.len() && spec_is_home(
                                        #[trigger] old(store)@.pages[k],
                                        old(store)@.pages[t].website_id,
                                    ) && old(store)@.pages[k].user_id != user_id@
                            })),
                        _ => false,
                    }
                },
            },
    {
        let set_static: bool = match page_type_tag {
            Some(tag) => {
                match Self::page_type_from_request(tag) {
                    Ok(_t) => true,
                    Err(st) => {
                        return Err(st);
                    },
                }
            },
            None => false,
        };
        let found = match Page::get(store, page_id) {
            Some(p) => p,
            None => {
                return Err(Status::not_found("Could not find page to update"));
            },
        };
        if !str_eq(found.user_id.as_str(), user_id) {
            proof {
                assert(store@.pages.contains(found@));
                let tf = choose|tf: int|
                    0 <= tf < store@.pages.len() && (#[trigger] store@.pages[tf]) == found@;
                assert forall|t: int| 0 <= t < store@.pages.len() implies !((
                #[trigger] store@.pages[t]).page_id == page_id && store@.pages[t].user_id
                    == user_id@) by {
                    if store@.pages[t].page_id == page_id {
                        crate::store::lemma_page_ids_unique(store@, tf, t);
                    }
                }
            }
            return Err(Status::not_found("Could not find page to update"));
        }
        let ghost s0 = store@;
        let updated = match Self::apply_page_update(
            store,
            user_id,
            page_id,
            found.website_id.as_str(),
            Ghost(found@),
            set_static,
            content_id,
            title,
            is_home_page,
            path,
        ) {
            Ok(p) => p,
            Err(st) => {
                proof {
                    assert(s0.pages.contains(found@));
                    let tf = choose|tf: int|
                        0 <= tf < s0.pages.len() && (#[trigger] s0.pages[tf]) == found@;
                    assert(s0.pages[tf].page_id == page_id && s0.pages[tf].user_id == user_id@);
                }
                return Err(st);
            },
        };
        let ghost s2 = store@;
        proof {
            let t = choose|t: int|
                {
                    &&& 0 <= t < s0.pages.len()
                    &&& (#[trigger] s0.pages[t]) == found@
                    &&& s2.pages[t] == updated@
                };
            assert(s0.pages[t].page_id == page_id && s0.pages[t].user_id == user_id@);
        }
        if set_static {
            match Self::ensure_static_page(store, page_id, updated.website_id.as_str(), user_id) {
                Ok(()) => {},
                Err(_st) => {
                    proof {
                        let t = choose|t: int|
                            0 <= t < s2.pages.len() && (#[trigger] s2.pages[t]) == updated@;
                        assert(s2.pages[t].page_id == page_id);
                        assert(false);
                    }
                    return Err(Status { code: Code::Internal, message: String::new() });
                },
            }
        }
        proof {
            let t = choose|t: int|
                {
                    &&& 0 <= t < s0.pages.len()
                    &&& (#[trigger] s0.pages[t]) == found@
                    &&& s2.pages[t] == updated@
                };
            assert(store@.pages == s2.pages);
            assert(store@.pages[t] == updated@);
            assert(s2.static_pages == s0.static_pages);
        }
        Ok(updated)
    }

    /// Deletes a page the user owns.  The home page — the page at the root
    /// path — can never be deleted; its structured document, if any, is
    /// removed with it.
    pub fn delete_page(store: &mut Store, user_id: &str, page_id: i64) -> (r: Result<(), Status>)
        requires
            old(store)@.wf(),
        ensures
            final(store)@.wf(),
            spec_home_pages_invariant(old(store)@) ==> spec_home_pages_invariant(final(store)@),
            match r {
                Ok(()) => exists|t: int|
                    {
                        &&& 0 <= t < old(store)@.pages.len()
                        &&& (#[trigger] old(store)@.pages[t]).page_id == page_id
                        &&& old(store)@.pages[t].user_id == user_id@
                        &&& old(store)@.pages[t].path != "/"@
                        &&& final(store)@ == (StoreV {
                            pages: old(store)@.pages.remove(t),
                            static_pages: old(store)@.static_pages.filter(
                                crate::store::spec_static_page_not_owned(page_id, user_id@),
                            ),
                            ..old(store)@
                        })
                    },
                Err(st) => {
                    &&& *final(store) == *old(store)
                    &&& match st.code {
                        Code::InvalidArgument => (exists|t: int|
                            0 <= t < old(store)@.pages.len() && (#[trigger] old(
                                store,
                            )@.pages[t]).page_id == page_id && old(store)@.pages[t].path == "/"@)
                            && st.message@ == "Cannot delete home page"@,
                        Code::NotFound => forall|t: int|
                            0 <= t < old(store)@.pages.len() ==> !((
                            #[trigger] old(store)@.pages[t]).page_id == page_id && (old(
                                store,
                            )@.pages[t].path == "/"@ || old(store)@.pages[t].user_id == user_id@)),
                        _ => false,
                    }
                },
            },
    {
        let found = match Page::get(store, page_id) {
            Some(p) => p,
            None => {
                return Err(Status::not_found(""));
            },
        };
        let ghost s0 = store@;
        proof {
            assert(s0.pages.contains(found@));
        }
        if str_eq(found.path.as_str(), "/") {
            proof {
                reveal_strlit("/");
                let t = choose|t: int| 0 <= t < s0.pages.len() && (#[trigger] s0.pages[t]) == found@;
                assert(s0.pages[t].page_id == page_id && s0.pages[t].path == "/"@);
            }
            return Err(Status::invalid_argument("Cannot delete home page"));
        }
        if !str_eq(found.user_id.as_str(), user_id) {
            proof {
                reveal_strlit("/");
                let tf = choose|t: int| 0 <= t < s0.pages.len() && (#[trigger] s0.pages[t]) == found@;
                assert forall|t: int| 0 <= t < s0.pages.len() implies !((
                #[trigger] s0.pages[t]).page_id == page_id && (s0.pages[t].path == "/"@
                    || s0.pages[t].user_id == user_id@)) by {
                    if s0.pages[t].page_id == page_id {
                        crate::store::lemma_page_ids_unique(s0, tf, t);
                    }
                }
            }
            return Err(Status::not_found(""));
        }
        let delete_result = StaticPage::delete(store, page_id, user_id);
        proof {
            assert(delete_result is Ok);
        }
        let ghost s1 = store@;
        match Page::delete(store, page_id, user_id) {
            Ok(()) => {},
            Err(_e) => {
                proof {
                    let t = choose|t: int| 0 <= t < s0.pages.len() && (#[trigger] s0.pages[t]) == found@;
                    assert(s1.pages[t].page_id == page_id && s1.pages[t].user_id == user_id@);
                    assert(false);
                }
                return Err(Status { code: Code::Internal, message: String::new() });
            },
        }
        proof {
            reveal_strlit("/");
            let t0 = choose|t0: int| 0 <= t0 < s0.pages.len() && (#[trigger] s0.pages[t0]) == found@;
            let t1 = choose|t1: int|
                {
                    &&& 0 <= t1 < s1.pages.len()
                    &&& (#[trigger] s1.pages[t1]).page_id == page_id
                    &&& s1.pages[t1].user_id == user_id@
                    &&& store@ == (StoreV { pages: s1.pages.remove(t1), ..s1 })
                };
            crate::store::lemma_page_ids_unique(s0, t0, t1);
            assert(store@.pages =~= s0.pages.remove(t0));
            assert(store@ == (StoreV {
                pages: s0.pages.remove(t0),
                static_pages: s0.static_pages.filter(
                    crate::store::spec_static_page_not_owned(page_id, user_id@),
                ),
                ..s0
            }));
            if spec_home_pages_invariant(s0) {
                assert forall|k: int|
                    0 <= k < store@.websites.len() implies spec_home_page_ok(
                    store@,
                    (#[trigger] store@.websites[k]).website_id,
                ) by {
                    let wid = store@.websites[k].website_id;
                    assert(spec_home_page_ok(s0, wid));
                    let h0 = choose|i: int|
                        {
                            &&& 0 <= i < s0.pages.len()
                            &&& spec_is_home(#[trigger] s0.pages[i], wid)
                            &&& s0.pages[i].path == "/"@
                            &&& forall|j: int|
                                0 <= j < s0.pages.len() && j != i ==> !spec_is_home(
                                    #[trigger] s0.pages[j],
                                    wid,
                                )
                        };
                    assert(h0 != t0) by {
                        assert(s0.pages[h0].path == "/"@);
                        assert(s0.pages[t0].path != "/"@);
                    }
                    let h1 = if h0 < t0 {
                        h0
                    } else {
                        h0 - 1
                    };
                    assert(store@.pages[h1] == s0.pages[h0]);
                    assert forall|j: int|
                        0 <= j < store@.pages.len() && j != h1 implies !spec_is_home(
                        #[trigger] store@.pages[j],
                        wid,
                    ) by {
                        let j0 = if j < t0 {
                            j
                        } else {
                            j + 1
                        };
                        assert(store@.pages[j] == s0.pages[j0]);
                        assert(j0 != h0);
                    }
                    assert(spec_home_page_ok(store@, wid));
                }
            }
        }
        Ok(())
    }

    /// Fetches a page by id, or by its website and path; at least one of the
    /// two selectors must be given.
    pub fn get_page(
        store: &Store,
        page_id: Option<i64>,
        website_id: Option<&str>,
        path: Option<&str>,
    ) -> (r: Result<Option<Page>, Status>)
        requires
            store@.wf(),
        ensures
            match r {
                Ok(found) => match (page_id, website_id, path) {
                    (Some(id), _, _) => match found {
                        Some(p) => store@.pages.contains(p@) && p@.page_id == id,
                        None => forall|i: int|
                            0 <= i < store@.pages.len() ==> (#[trigger] store@.pages[i]).page_id
                                != id,
                    },
                    (None, Some(w), Some(pa)) => match found {
                        Some(p) => store@.pages.contains(p@) && p@.website_id == w@ && p@.path
                            == pa@,
                        None => forall|i: int|
                            0 <= i < store@.pages.len() ==> !((
                            #[trigger] store@.pages[i]).website_id == w@ && store@.pages[i].path
                                == pa@),
                    },
                    _ => false,
                },
                Err(st) => st.code == Code::InvalidArgument && page_id is None && !(
                website_id is Some && path is Some),
            },
    {
        match (page_id, website_id, path) {
            (Some(id), _, _) => Ok(Page::get(store, id)),
            (None, Some(w), Some(pa)) => Ok(Page::get_by_path(store, w, pa)),
            _ => Err(
                Status::invalid_argument(
                    "Please provide either page_id or both of website_id and path",
                ),
            ),
        }
    }

    /// Ensures a static page's structured-document row exists, creating an
    /// empty document when it is missing.
    pub fn ensure_static_page(
        store: &mut Store,
        page_id: i64,
        website_id: &str,
        user_id: &str,
    ) -> (r: Result<(), Status>)
        requires
            old(store)@.wf(),
        ensures
            final(store)@.wf(),
            final(store)@.websites == old(store)@.websites,
            final(store)@.domains == old(store)@.domains,
            final(store)@.pages == old(store)@.pages,
            final(store)@.customizations == old(store)@.customizations,
            match r {
                Ok(()) => if exists|i: int|
                    0 <= i < old(store)@.static_pages.len() && (#[trigger] old(
                        store,
                    )@.static_pages[i]).page_id == page_id {
                    *final(store) == *old(store)
                } else {
                    final(store)@ == (StoreV {
                        static_pages: old(store)@.static_pages.push(
                            crate::model::StaticPageV {
                                page_id,
                                website_id: website_id@,
                                user_id: user_id@,
                                created_at: old(store)@.now,
                                updated_at: old(store)@.now,
                                components: "[]"@,
                            },
                        ),
                        ..old(store)@
                    })
                },
                Err(st) => *final(store) == *old(store) && st.code == Code::FailedPrecondition
                    && forall|i: int|
                    0 <= i < old(store)@.pages.len() ==> (#[trigger] old(store)@.pages[i]).page_id
                        != page_id,
            },
    {
        match StaticPage::get(store, page_id) {
            Some(_) => Ok(()),
            None => {
                match StaticPage::create(store, page_id, website_id, user_id, "[]") {
                    Ok(_) => Ok(()),
                    Err(e) => Err(Status::from_db_error(e)),
                }
            },
        }
    }
}

} // verus!