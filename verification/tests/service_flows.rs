//! End-to-end flows over the in-memory store: website creation, the
//! home-page invariant, the domain state machine and pagination.

use websites::cloudflare::{DnsLookupResponse, DnsLookupResponseAnswer};
use websites::domains::DomainService;
use websites::errors::Code;
use websites::model::{DomainStatus, PageType};
use websites::pages::PageService;
use websites::pagination::PaginationRequest;
use websites::store::Store;
use websites::websites::WebsiteService;

fn service() -> WebsiteService {
    WebsiteService::build("sited.example".to_string(), "fallback.sited.example".to_string())
}

fn lookup(answers: Vec<(&str, usize, &str)>) -> DnsLookupResponse {
    DnsLookupResponse {
        status: 0,
        answer: if answers.is_empty() {
            None
        } else {
            Some(
                answers
                    .into_iter()
                    .map(|(name, rr_type, data)| DnsLookupResponseAnswer {
                        name: name.to_string(),
                        rr_type,
                        ttl: 300,
                        data: data.to_string(),
                    })
                    .collect(),
            )
        },
        authority: None,
        additional: None,
    }
}

fn count_home_pages(store: &Store, website_id: &str) -> usize {
    store
        .pages
        .iter()
        .filter(|p| p.website_id == website_id && p.is_home_page)
        .count()
}

#[test]
fn create_website_yields_internal_domain_and_home_page() {
    let svc = service();
    let mut store = Store::new(1_700_000_000);
    let site = svc
        .create_website(&mut store, "u1", "Acme", "acmeid12345678", "client-1", "app-1")
        .unwrap();
    assert_eq!(site.website_id, "acmeid12345678");
    assert_eq!(site.name, "Acme");

    let domains: Vec<_> = store
        .domains
        .iter()
        .filter(|d| d.website_id == "acmeid12345678")
        .collect();
    assert_eq!(domains.len(), 1);
    assert_eq!(domains[0].status, DomainStatus::Internal);
    assert_eq!(domains[0].domain, "acmeid12345678.sited.example");

    assert_eq!(count_home_pages(&store, "acmeid12345678"), 1);
    let home = store
        .pages
        .iter()
        .find(|p| p.website_id == "acmeid12345678" && p.is_home_page)
        .unwrap();
    assert_eq!(home.path, "/");
    assert_eq!(home.title, "Home");
    assert_eq!(home.page_type, PageType::Static);
}

#[test]
fn duplicate_name_same_user_already_exists_other_user_succeeds() {
    let svc = service();
    let mut store = Store::new(0);
    svc.create_website(&mut store, "u1", "Acme", "firstsiteid001", "c1", "a1")
        .unwrap();
    let err = svc
        .create_website(&mut store, "u1", "Acme", "secondsiteid02", "c2", "a2")
        .unwrap_err();
    assert_eq!(err.code, Code::AlreadyExists);
    let other = svc
        .create_website(&mut store, "u2", "Acme", "thirdsiteid003", "c3", "a3")
        .unwrap();
    assert_eq!(other.user_id, "u2");
}

#[test]
fn too_short_name_is_invalid_argument() {
    let svc = service();
    let mut store = Store::new(0);
    let err = svc
        .create_website(&mut store, "u1", "Ac", "shortnameid001", "c1", "a1")
        .unwrap_err();
    assert_eq!(err.code, Code::InvalidArgument);
}

#[test]
fn home_page_invariant_through_creations_and_promotions() {
    let svc = service();
    let mut store = Store::new(0);
    svc.create_website(&mut store, "u1", "Acme", "siteid00000001", "c", "a")
        .unwrap();
    let wid = "siteid00000001";

    // a plain page never disturbs the home page
    let about = PageService::create_page(
        &mut store,
        "u1",
        wid,
        1,
        "",
        "About Us",
        false,
        None,
    )
    .unwrap();
    assert_eq!(count_home_pages(&store, wid), 1);
    assert_eq!(about.path, "/about-us");

    // creating a page as home page demotes the previous one
    let news = PageService::create_page(
        &mut store,
        "u1",
        wid,
        1,
        "",
        "News",
        true,
        None,
    )
    .unwrap();
    assert_eq!(count_home_pages(&store, wid), 1);
    assert_eq!(news.path, "/");
    let old_home = store.pages.iter().find(|p| p.title == "Home").unwrap();
    assert!(!old_home.is_home_page);
    assert_eq!(old_home.path, "/home");

    // promoting an existing page demotes the current home page
    PageService::update_page(
        &mut store,
        "u1",
        about.page_id,
        None,
        None,
        None,
        Some(true),
        None,
    )
    .unwrap();
    assert_eq!(count_home_pages(&store, wid), 1);
    let promoted = store.pages.iter().find(|p| p.page_id == about.page_id).unwrap();
    assert!(promoted.is_home_page);
    assert_eq!(promoted.path, "/");
    let demoted = store.pages.iter().find(|p| p.page_id == news.page_id).unwrap();
    assert!(!demoted.is_home_page);
    assert_eq!(demoted.path, "/news");
}

#[test]
fn home_page_cannot_be_deleted() {
    let svc = service();
    let mut store = Store::new(0);
    svc.create_website(&mut store, "u1", "Acme", "siteid00000001", "c", "a")
        .unwrap();
    let home_id = store.pages[0].page_id;
    let err = PageService::delete_page(&mut store, "u1", home_id).unwrap_err();
    assert_eq!(err.code, Code::InvalidArgument);
    assert_eq!(err.message, "Cannot delete home page");
}

#[test]
fn missing_entities_surface_as_not_found() {
    let svc = service();
    let ds = DomainService::build("fallback.sited.example".to_string());
    let mut store = Store::new(0);
    svc.create_website(&mut store, "u1", "Acme", "siteid00000001", "c", "a")
        .unwrap();

    // a domain for a website that does not exist, or is not the caller's
    let err = ds
        .create_domain(&mut store, "u1", "nosuchsite0001", "shop.example.com")
        .unwrap_err();
    assert_eq!(err.code, Code::NotFound);
    let err = ds
        .create_domain(&mut store, "u2", "siteid00000001", "shop.example.com")
        .unwrap_err();
    assert_eq!(err.code, Code::NotFound);

    // a status check or a delete of a domain that is not there
    let empty = lookup(vec![]);
    let err = ds
        .check_domain_status(&mut store, "u1", 12345, &empty, &empty)
        .unwrap_err();
    assert_eq!(err.code, Code::NotFound);
    let err = ds.delete_domain(&mut store, "u1", 12345).unwrap_err();
    assert_eq!(err.code, Code::NotFound);

    // a rename of a website the caller does not own
    let err = WebsiteService::update_website(&mut store, "u2", "siteid00000001", None)
        .unwrap_err();
    assert_eq!(err.code, Code::NotFound);
}

#[test]
fn create_page_creates_an_empty_document() {
    let svc = service();
    let mut store = Store::new(0);
    svc.create_website(&mut store, "u1", "Acme", "siteid00000001", "c", "a")
        .unwrap();
    let page =
        PageService::create_page(&mut store, "u1", "siteid00000001", 1, "", "Docs", false, None)
            .unwrap();
    let doc = store
        .static_pages
        .iter()
        .find(|sp| sp.page_id == page.page_id)
        .unwrap();
    assert_eq!(doc.components, "[]");
}

#[test]
fn delete_website_removes_page_documents_too() {
    let svc = service();
    let mut store = Store::new(0);
    svc.create_website(&mut store, "u1", "Acme", "siteid00000001", "c", "a")
        .unwrap();
    PageService::create_page(&mut store, "u1", "siteid00000001", 1, "", "About", false, None)
        .unwrap();
    assert!(store
        .static_pages
        .iter()
        .any(|sp| sp.website_id == "siteid00000001"));
    WebsiteService::delete_website(&mut store, "u1", "siteid00000001").unwrap();
    assert!(store.static_pages.is_empty());
    assert!(store.customizations.is_empty());
}

#[test]
fn domain_check_scenario_pending_then_active() {
    let svc = service();
    let ds = DomainService::build("fallback.sited.example".to_string());
    let mut store = Store::new(0);
    svc.create_website(&mut store, "u1", "Acme", "siteid00000001", "c", "a")
        .unwrap();

    let created = ds
        .create_domain(&mut store, "u1", "siteid00000001", "shop.example.com")
        .unwrap();
    assert_eq!(created.status, DomainStatus::Pending);

    // DNS pointing somewhere unrelated: stays pending, nothing provisioned
    let unrelated = lookup(vec![("shop.example.com", 1, "192.0.2.10")]);
    let fallback = lookup(vec![("fallback.sited.example", 1, "198.51.100.7")]);
    let outcome = ds
        .check_domain_status(&mut store, "u1", created.domain_id, &unrelated, &fallback)
        .unwrap();
    assert_eq!(outcome.domain.status, DomainStatus::Pending);
    assert!(outcome.provision_hostname.is_none());

    // a CNAME to the fallback domain: activated, provisioned exactly once
    let cname = lookup(vec![("shop.example.com", 5, "fallback.sited.example")]);
    let outcome = ds
        .check_domain_status(&mut store, "u1", created.domain_id, &cname, &fallback)
        .unwrap();
    assert_eq!(outcome.domain.status, DomainStatus::Active);
    assert_eq!(
        outcome.provision_hostname.as_deref(),
        Some("shop.example.com")
    );

    // a second check of the now-active domain is a no-op, not an error
    let outcome = ds
        .check_domain_status(&mut store, "u1", created.domain_id, &cname, &fallback)
        .unwrap();
    assert_eq!(outcome.domain.status, DomainStatus::Active);
    assert!(outcome.provision_hostname.is_none());
}

#[test]
fn matching_address_sets_activate_but_empty_sets_do_not() {
    let svc = service();
    let ds = DomainService::build("fallback.sited.example".to_string());
    let mut store = Store::new(0);
    svc.create_website(&mut store, "u1", "Acme", "siteid00000001", "c", "a")
        .unwrap();
    let created = ds
        .create_domain(&mut store, "u1", "siteid00000001", "shop.example.com")
        .unwrap();

    // both resolving to nothing counts as "not yet verified"
    let empty = lookup(vec![]);
    let outcome = ds
        .check_domain_status(&mut store, "u1", created.domain_id, &empty, &empty)
        .unwrap();
    assert_eq!(outcome.domain.status, DomainStatus::Pending);

    // the same non-empty address set, in any order, verifies ownership
    let domain_lookup = lookup(vec![
        ("shop.example.com", 1, "203.0.113.1"),
        ("shop.example.com", 1, "203.0.113.2"),
    ]);
    let fallback_lookup = lookup(vec![
        ("fallback.sited.example", 1, "203.0.113.2"),
        ("fallback.sited.example", 1, "203.0.113.1"),
    ]);
    let outcome = ds
        .check_domain_status(
            &mut store,
            "u1",
            created.domain_id,
            &domain_lookup,
            &fallback_lookup,
        )
        .unwrap();
    assert_eq!(outcome.domain.status, DomainStatus::Active);
}

#[test]
fn internal_domain_never_transitions_nor_deletes() {
    let svc = service();
    let ds = DomainService::build("fallback.sited.example".to_string());
    let mut store = Store::new(0);
    svc.create_website(&mut store, "u1", "Acme", "siteid00000001", "c", "a")
        .unwrap();
    let internal_id = store.domains[0].domain_id;
    let cname = lookup(vec![(
        "siteid00000001.sited.example",
        5,
        "fallback.sited.example",
    )]);
    let outcome = ds
        .check_domain_status(&mut store, "u1", internal_id, &cname, &cname)
        .unwrap();
    assert_eq!(outcome.domain.status, DomainStatus::Internal);
    assert!(outcome.provision_hostname.is_none());

    let err = ds.delete_domain(&mut store, "u1", internal_id).unwrap_err();
    assert_eq!(err.code, Code::InvalidArgument);
}

#[test]
fn active_domain_name_cannot_be_added_again() {
    let svc = service();
    let ds = DomainService::build("fallback.sited.example".to_string());
    let mut store = Store::new(0);
    svc.create_website(&mut store, "u1", "Acme", "siteid00000001", "c", "a")
        .unwrap();
    svc.create_website(&mut store, "u2", "Beta", "siteid00000002", "c", "a")
        .unwrap();
    let created = ds
        .create_domain(&mut store, "u1", "siteid00000001", "shop.example.com")
        .unwrap();
    let cname = lookup(vec![("shop.example.com", 5, "fallback.sited.example")]);
    let fallback = lookup(vec![]);
    ds.check_domain_status(&mut store, "u1", created.domain_id, &cname, &fallback)
        .unwrap();
    let err = ds
        .create_domain(&mut store, "u2", "siteid00000002", "shop.example.com")
        .unwrap_err();
    assert_eq!(err.code, Code::AlreadyExists);
}

#[test]
fn domain_validation_rules() {
    assert!(DomainService::validate_domain("shop.example.com").is_ok());
    let err = DomainService::validate_domain("nodots").unwrap_err();
    assert_eq!(err.code, Code::InvalidArgument);
    let err = DomainService::validate_domain("https://shop.example.com/path").unwrap_err();
    assert_eq!(err.code, Code::InvalidArgument);
    let err = DomainService::validate_domain("shop.example.com/path").unwrap_err();
    assert_eq!(err.code, Code::InvalidArgument);
}

#[test]
fn pagination_totals_agree_and_pages_are_disjoint() {
    let svc = service();
    let mut store = Store::new(0);
    for (i, name) in ["Alpha", "Bravo", "Charlie", "Delta", "Echo"].iter().enumerate() {
        let id = format!("siteid{:08}", i);
        svc.create_website(&mut store, "u1", name, &id, "c", "a").unwrap();
    }
    svc.create_website(&mut store, "u2", "Foxtrot", "othersite00001", "c", "a")
        .unwrap();

    let owner = Some("u1".to_string());
    let (page1, meta1) = WebsiteService::list_websites(
        &store,
        &owner,
        Some(PaginationRequest { page: 1, size: 2 }),
    )
    .unwrap();
    let (page2, meta2) = WebsiteService::list_websites(
        &store,
        &owner,
        Some(PaginationRequest { page: 2, size: 2 }),
    )
    .unwrap();

    assert_eq!(meta1.total_elements, 5);
    assert_eq!(meta2.total_elements, meta1.total_elements);
    assert_eq!(page1.len(), 2);
    assert_eq!(page2.len(), 2);
    for a in &page1 {
        for b in &page2 {
            assert_ne!(a.website_id, b.website_id);
        }
    }

    // the data pages and the count range over the same owner filter
    let (all, meta_all) = WebsiteService::list_websites(&store, &None, None).unwrap();
    assert_eq!(meta_all.total_elements, 6);
    assert_eq!(all.len(), 6);
}

#[test]
fn aggregate_fetch_attaches_children_in_one_read() {
    let svc = service();
    let ds = DomainService::build("fallback.sited.example".to_string());
    let mut store = Store::new(0);
    svc.create_website(&mut store, "u1", "Acme", "siteid00000001", "c", "a")
        .unwrap();
    ds.create_domain(&mut store, "u1", "siteid00000001", "shop.example.com")
        .unwrap();
    PageService::create_page(&mut store, "u1", "siteid00000001", 1, "", "About", false, None)
        .unwrap();

    let agg = websites::model::Website::get(&store, "siteid00000001").unwrap();
    assert_eq!(agg.domains.len(), 2); // internal subdomain + custom domain
    assert_eq!(agg.pages.len(), 2); // home page + about page
    assert!(agg.customization.is_some());
    assert!(agg.domains.iter().any(|d| d.domain == "shop.example.com"));
    assert!(agg.pages.iter().any(|p| p.path == "/about"));
}

#[test]
fn delete_website_cascades() {
    let svc = service();
    let mut store = Store::new(0);
    svc.create_website(&mut store, "u1", "Acme", "siteid00000001", "c", "a")
        .unwrap();
    let removed = WebsiteService::delete_website(&mut store, "u1", "siteid00000001").unwrap();
    assert_eq!(removed.website_id, "siteid00000001");
    assert!(store.websites.is_empty());
    assert!(store.domains.is_empty());
    assert!(store.pages.is_empty());
    assert!(store.customizations.is_empty());
}

#[test]
fn sweep_activates_pointed_domains_and_skips_failures() {
    let svc = service();
    let ds = DomainService::build("fallback.sited.example".to_string());
    let mut store = Store::new(0);
    svc.create_website(&mut store, "u1", "Acme", "siteid00000001", "c", "a")
        .unwrap();
    let d1 = ds
        .create_domain(&mut store, "u1", "siteid00000001", "one.example.com")
        .unwrap();
    let d2 = ds
        .create_domain(&mut store, "u1", "siteid00000001", "two.example.com")
        .unwrap();

    let entries = vec![
        websites::schedule::SweepEntry {
            domain_id: d1.domain_id,
            user_id: "u1".to_string(),
            domain_lookup: lookup(vec![("one.example.com", 5, "fallback.sited.example")]),
            fallback_lookup: lookup(vec![]),
        },
        websites::schedule::SweepEntry {
            domain_id: 999_999, // no such domain: skipped, sweep continues
            user_id: "u1".to_string(),
            domain_lookup: lookup(vec![]),
            fallback_lookup: lookup(vec![]),
        },
        websites::schedule::SweepEntry {
            domain_id: d2.domain_id,
            user_id: "u1".to_string(),
            domain_lookup: lookup(vec![("two.example.com", 1, "192.0.2.9")]),
            fallback_lookup: lookup(vec![("fallback.sited.example", 1, "198.51.100.1")]),
        },
    ];
    let actions = websites::schedule::check_custom_domains(&ds, &mut store, &entries);
    assert_eq!(actions, vec!["one.example.com".to_string()]);
    let one = store.domains.iter().find(|d| d.domain == "one.example.com").unwrap();
    assert_eq!(one.status, DomainStatus::Active);
    let two = store.domains.iter().find(|d| d.domain == "two.example.com").unwrap();
    assert_eq!(two.status, DomainStatus::Pending);
}
