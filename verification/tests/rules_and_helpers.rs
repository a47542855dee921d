//! The smaller rules: slugs, identifiers, image validation, pagination
//! arithmetic, status names and the generated SQL.

use websites::customizations::CustomizationService;
use websites::errors::Code;
use websites::images::ImageService;
use websites::model::{DomainStatus, PageType};
use websites::pages::PageService;
use websites::pagination::{get_limit_offset_from_pagination, i64_to_u32, PaginationRequest};
use websites::sql;
use websites::websites::WebsiteService;

#[test]
fn slugified_paths() {
    assert_eq!(PageService::get_slugified_path("My Test String!!!1!1"), "/my-test-string-1-1");
    assert_eq!(PageService::get_slugified_path("About Us"), "/about-us");
    assert_eq!(PageService::get_slugified_path(""), "/");
}

#[test]
fn generated_website_ids_fit_the_alphabet() {
    let svc = WebsiteService::build("sited.example".to_string(), "fb.example".to_string());
    let id = svc.generate_website_id();
    assert_eq!(id.len(), 14);
    assert!(id.chars().all(|c| c.is_ascii_lowercase() || c.is_ascii_digit()));
    assert_eq!(svc.build_main_domain(&id), format!("{id}.sited.example"));
}

#[test]
fn image_paths_carry_owner_website_and_token() {
    let path = CustomizationService::gen_image_path("u1", "site1");
    assert!(path.starts_with("u1/site1/"));
    assert_eq!(path.len(), "u1".len() + "site1".len() + 38);
}

#[test]
fn image_validation_rules() {
    let service = ImageService::new("https://media.example".to_string(), 16);
    let png = [0x89u8, 0x50, 0x4e, 0x47, 0x0d, 0x0a, 0x1a, 0x0a, 1, 2, 3, 4];
    assert!(service.validate_image(&png).is_ok());

    let oversized = [0u8; 17];
    let err = service.validate_image(&oversized).unwrap_err();
    assert_eq!(err.code, Code::ResourceExhausted);
    assert_eq!(err.message, "image.size: max_size=16");

    let garbage = [0u8, 1, 2, 3, 4, 5, 6, 7, 8, 9, 10, 11, 12];
    assert_eq!(service.validate_image(&garbage).unwrap_err().code, Code::InvalidArgument);

    let jpeg = [0xffu8, 0xd8, 0xff, 0xe0];
    assert!(service.validate_image(&jpeg).is_ok());

    // the JPEG 2000 signature box ends in a zero byte; a buffer that stops
    // matching at that byte is not an accepted image
    let jp2 = [
        0x00u8, 0x00, 0x00, 0x0c, 0x6a, 0x50, 0x20, 0x20, 0x0d, 0x0a, 0x87, 0x0a, 0x00,
    ];
    assert!(service.validate_image(&jp2).is_ok());
    let jp2_cut = [
        0x00u8, 0x00, 0x00, 0x0c, 0x6a, 0x50, 0x20, 0x20, 0x0d, 0x0a, 0x87, 0x0a, 0x01,
    ];
    let err = service.validate_image(&jp2_cut).unwrap_err();
    assert_eq!(err.code, Code::InvalidArgument);
    assert_eq!(err.message, "image.type: allowed_types=jpg,png,webp");

    let webp = [
        0x52u8, 0x49, 0x46, 0x46, 0x00, 0x00, 0x00, 0x00, 0x57, 0x45, 0x42, 0x50,
    ];
    assert!(service.validate_image(&webp).is_ok());

    assert_eq!(service.get_image_url("u1/site1/logo"), "https://media.example/u1/site1/logo");
}

#[test]
fn pagination_helper_defaults_and_rejections() {
    let (limit, offset, page) = get_limit_offset_from_pagination(None).unwrap();
    assert_eq!((limit, offset), (10, 0));
    assert_eq!((page.page, page.size, page.total_elements), (1, 10, 0));

    let (limit, offset, page) =
        get_limit_offset_from_pagination(Some(PaginationRequest { page: 3, size: 20 })).unwrap();
    assert_eq!((limit, offset), (20, 40));
    assert_eq!((page.page, page.size), (3, 20));

    let err = get_limit_offset_from_pagination(Some(PaginationRequest { page: 0, size: 20 }))
        .unwrap_err();
    assert_eq!(err.code, Code::InvalidArgument);
}

#[test]
fn count_narrowing() {
    assert_eq!(i64_to_u32(0).unwrap(), 0);
    assert_eq!(i64_to_u32(4_294_967_295).unwrap(), u32::MAX);
    assert_eq!(i64_to_u32(-1).unwrap_err().code, Code::Internal);
    assert_eq!(i64_to_u32(4_294_967_296).unwrap_err().code, Code::Internal);
}

#[test]
fn status_and_page_type_names_round_trip() {
    for s in [
        DomainStatus::Unspecified,
        DomainStatus::Internal,
        DomainStatus::Pending,
        DomainStatus::Active,
    ] {
        assert_eq!(DomainStatus::from_str_name(s.as_str_name()), Some(s));
    }
    assert_eq!(DomainStatus::from_str_name("NOT_A_STATUS"), None);
    for t in [PageType::Unspecified, PageType::Static] {
        assert_eq!(PageType::from_str_name(t.as_str_name()), Some(t));
    }
    assert_eq!(PageType::from_i32(1), Some(PageType::Static));
    assert_eq!(PageType::from_i32(7), None);
    assert_eq!(PageService::page_type_from_request(0).unwrap_err().code, Code::InvalidArgument);
    assert_eq!(PageService::page_type_from_request(1).unwrap(), PageType::Static);
}

#[test]
fn aggregate_select_embeds_one_subquery_per_child_relation() {
    let sql_text = websites::model::Website::select_with_relations();
    assert!(sql_text.starts_with("SELECT \"websites\".*"));
    assert_eq!(sql_text.matches("ARRAY_AGG(ROW(").count(), 2);
    assert!(sql_text.contains(
        "ARRAY_AGG(ROW(\"domains\".\"domain_id\", \"domains\".\"domain\", \"domains\".\"status\"))"
    ));
    assert!(sql_text.contains("GROUP BY \"websites\".\"website_id\""));
}

#[test]
fn listing_and_count_share_one_filter() {
    let owner = Some("u1".to_string());
    let (data, count) = sql::list_websites_statements(&owner, 10, 20);
    assert!(data.sql.ends_with(" WHERE \"websites\".\"user_id\" = $1 LIMIT $2 OFFSET $3"));
    assert_eq!(count.sql, "SELECT COUNT(*) AS \"count\" FROM \"websites\" WHERE \"websites\".\"user_id\" = $1");
    assert!(matches!(&data.params[0], sql::Param::OptStr(Some(u)) if u == "u1"));
    assert!(matches!(&count.params[0], sql::Param::OptStr(Some(u)) if u == "u1"));

    let (data, count) = sql::list_websites_statements(&None, 10, 0);
    assert!(!data.sql.contains("WHERE"));
    assert!(!count.sql.contains("WHERE"));
}

#[test]
fn domain_write_statements() {
    let stmt = sql::insert_domain_statement("site1", "u1", "shop.example.com", DomainStatus::Pending);
    assert_eq!(
        stmt.sql,
        "INSERT INTO \"domains\" (\"website_id\", \"user_id\", \"domain\", \"status\") VALUES ($1, $2, $3, $4) RETURNING *"
    );
    assert!(matches!(&stmt.params[3], sql::Param::Str(s) if s == "DOMAIN_STATUS_PENDING"));

    let stmt = sql::update_domain_status_statement(7, "site1", "u1", DomainStatus::Active);
    assert_eq!(
        stmt.sql,
        "UPDATE \"domains\" SET \"status\" = $1 WHERE \"domain_id\" = $2 AND \"website_id\" = $3 AND \"user_id\" = $4 RETURNING *"
    );
    assert!(matches!(stmt.params[1], sql::Param::Int(7)));
}

#[test]
fn customization_updates_and_logo_lifecycle() {
    let svc = WebsiteService::build("sited.example".to_string(), "fb.example".to_string());
    let images = ImageService::new("https://media.example".to_string(), 1024);
    let mut store = websites::store::Store::new(0);
    svc.create_website(&mut store, "u1", "Acme", "siteid00000001", "c", "a").unwrap();

    let updated = CustomizationService::update_customization(
        &mut store,
        "u1",
        "siteid00000001",
        Some("#112233".to_string()),
        None,
    )
    .unwrap();
    assert_eq!(updated.primary_color.as_deref(), Some("#112233"));
    assert_eq!(updated.logo_image_url, None);

    let png = [0x89u8, 0x50, 0x4e, 0x47, 1, 2, 3, 4];
    let (new_path, previous) = CustomizationService::put_logo_image(
        &mut store,
        &images,
        "u1",
        "siteid00000001",
        &png,
    )
    .unwrap();
    assert!(previous.is_none());
    assert!(new_path.starts_with("u1/siteid00000001/"));

    let removed = CustomizationService::remove_logo_image(&mut store, "u1", "siteid00000001")
        .unwrap();
    assert_eq!(removed, Some(new_path));
}

#[test]
fn static_page_document_lifecycle() {
    let svc = WebsiteService::build("sited.example".to_string(), "fb.example".to_string());
    let mut store = websites::store::Store::new(0);
    svc.create_website(&mut store, "u1", "Acme", "siteid00000001", "c", "a").unwrap();
    let page = PageService::create_page(&mut store, "u1", "siteid00000001", 1, "", "Docs", false, None)
        .unwrap();

    let doc = websites::static_pages::StaticPageService::get_static_page(&store, page.page_id)
        .unwrap();
    assert_eq!(doc.components, "[]");

    let updated = websites::static_pages::StaticPageService::update_static_page(
        &mut store,
        "u1",
        page.page_id,
        "[{\"kind\":\"text\"}]",
    )
    .unwrap();
    assert_eq!(updated.components, "[{\"kind\":\"text\"}]");
}
