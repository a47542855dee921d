//! Construction of the parameterized SQL sent to the relational engine.
//!
//! The aggregate select embeds, per child relation, a correlated sub-query
//! that groups child rows by the parent key and collects each row into an
//! array of anonymous records — one row per parent regardless of child
//! count; the [`crate::wire`] module decodes those columns.  Listings are
//! built together with their count statement from one shared filter, so the
//! two can never disagree about which rows they range over.

use vstd::prelude::*;

use crate::model::{spec_domain_status_name, DomainStatus};

verus! {

/// The websites relation and its columns.
#[derive(Clone, Copy, Debug, PartialEq, Eq, Structural)]
pub enum WebsiteIden {
    Table,
    WebsiteId,
    UserId,
    CreatedAt,
    UpdatedAt,
    Name,
    ClientId,
    ZitadelAppId,
}

/// The SQL name of each websites column.
pub open spec fn spec_website_iden(i: WebsiteIden) -> Seq<char> {
    match i {
        WebsiteIden::Table => "websites"@,
        WebsiteIden::WebsiteId => "website_id"@,
        WebsiteIden::UserId => "user_id"@,
        WebsiteIden::CreatedAt => "created_at"@,
        WebsiteIden::UpdatedAt => "updated_at"@,
        WebsiteIden::Name => "name"@,
        WebsiteIden::ClientId => "client_id"@,
        WebsiteIden::ZitadelAppId => "zitadel_app_id"@,
    }
}

impl WebsiteIden {
    /// The SQL name of this identifier.
    pub fn as_str(&self) -> (r: &'static str)
        ensures
            r@ == spec_website_iden(*self),
    {
        match self {
            WebsiteIden::Table => "websites",
            WebsiteIden::WebsiteId => "website_id",
            WebsiteIden::UserId => "user_id",
            WebsiteIden::CreatedAt => "created_at",
            WebsiteIden::UpdatedAt => "updated_at",
            WebsiteIden::Name => "name",
            WebsiteIden::ClientId => "client_id",
            WebsiteIden::ZitadelAppId => "zitadel_app_id",
        }
    }
}

/// The domains relation and its columns.
#[derive(Clone, Copy, Debug, PartialEq, Eq, Structural)]
pub enum DomainIden {
    Table,
    DomainId,
    WebsiteId,
    UserId,
    CreatedAt,
    UpdatedAt,
    Domain,
    Status,
}

/// The SQL name of each domains column.
pub open spec fn spec_domain_iden(i: DomainIden) -> Seq<char> {
    match i {
        DomainIden::Table => "domains"@,
        DomainIden::DomainId => "domain_id"@,
        DomainIden::WebsiteId => "website_id"@,
        DomainIden::UserId => "user_id"@,
        DomainIden::CreatedAt => "created_at"@,
        DomainIden::UpdatedAt => "updated_at"@,
        DomainIden::Domain => "domain"@,
        DomainIden::Status => "status"@,
    }
}

impl DomainIden {
    /// The SQL name of this identifier.
    pub fn as_str(&self) -> (r: &'static str)
        ensures
            r@ == spec_domain_iden(*self),
    {
        match self {
            DomainIden::Table => "domains",
            DomainIden::DomainId => "domain_id",
            DomainIden::WebsiteId => "website_id",
            DomainIden::UserId => "user_id",
            DomainIden::CreatedAt => "created_at",
            DomainIden::UpdatedAt => "updated_at",
            DomainIden::Domain => "domain",
            DomainIden::Status => "status",
        }
    }
}

/// The pages relation and its columns.
#[derive(Clone, Copy, Debug, PartialEq, Eq, Structural)]
pub enum PageIden {
    Table,
    PageId,
    WebsiteId,
    UserId,
    CreatedAt,
    UpdatedAt,
    PageType,
    ContentId,
    Title,
    IsHomePage,
    Path,
}

/// The SQL name of each pages column.
pub open spec fn spec_page_iden(i: PageIden) -> Seq<char> {
    match i {
        PageIden::Table => "pages"@,
        PageIden::PageId => "page_id"@,
        PageIden::WebsiteId => "website_id"@,
        PageIden::UserId => "user_id"@,
        PageIden::CreatedAt => "created_at"@,
        PageIden::UpdatedAt => "updated_at"@,
        PageIden::PageType => "page_type"@,
        PageIden::ContentId => "content_id"@,
        PageIden::Title => "title"@,
        PageIden::IsHomePage => "is_home_page"@,
        PageIden::Path => "path"@,
    }
}

impl PageIden {
    /// The SQL name of this identifier.
    pub fn as_str(&self) -> (r: &'static str)
        ensures
            r@ == spec_page_iden(*self),
    {
        match self {
            PageIden::Table => "pages",
            PageIden::PageId => "page_id",
            PageIden::WebsiteId => "website_id",
            PageIden::UserId => "user_id",
            PageIden::CreatedAt => "created_at",
            PageIden::UpdatedAt => "updated_at",
            PageIden::PageType => "page_type",
            PageIden::ContentId => "content_id",
            PageIden::Title => "title",
            PageIden::IsHomePage => "is_home_page",
            PageIden::Path => "path",
        }
    }
}

/// The customizations relation and its columns.
#[derive(Clone, Copy, Debug, PartialEq, Eq, Structural)]
pub enum CustomizationIden {
    Table,
    WebsiteId,
    UserId,
    PrimaryColor,
    SecondaryColor,
    LogoImageUrl,
}

/// The SQL name of each customizations column.
pub open spec fn spec_customization_iden(i: CustomizationIden) -> Seq<char> {
    match i {
        CustomizationIden::Table => "customizations"@,
        CustomizationIden::WebsiteId => "website_id"@,
        CustomizationIden::UserId => "user_id"@,
        CustomizationIden::PrimaryColor => "primary_color"@,
        CustomizationIden::SecondaryColor => "secondary_color"@,
        CustomizationIden::LogoImageUrl => "logo_image_url"@,
    }
}

impl CustomizationIden {
    /// The SQL name of this identifier.
    pub fn as_str(&self) -> (r: &'static str)
        ensures
            r@ == spec_customization_iden(*self),
    {
        match self {
            CustomizationIden::Table => "customizations",
            CustomizationIden::WebsiteId => "website_id",
            CustomizationIden::UserId => "user_id",
            CustomizationIden::PrimaryColor => "primary_color",
            CustomizationIden::SecondaryColor => "secondary_color",
            CustomizationIden::LogoImageUrl => "logo_image_url",
        }
    }
}

/// The static-pages relation and its columns.
#[derive(Clone, Copy, Debug, PartialEq, Eq, Structural)]
pub enum StaticPageIden {
    Table,
    PageId,
    WebsiteId,
    UserId,
    CreatedAt,
    UpdatedAt,
    Components,
}

/// The SQL name of each static-pages column.
pub open spec fn spec_static_page_iden(i: StaticPageIden) -> Seq<char> {
    match i {
        StaticPageIden::Table => "static_pages"@,
        StaticPageIden::PageId => "page_id"@,
        StaticPageIden::WebsiteId => "website_id"@,
        StaticPageIden::UserId => "user_id"@,
        StaticPageIden::CreatedAt => "created_at"@,
        StaticPageIden::UpdatedAt => "updated_at"@,
        StaticPageIden::Components => "components"@,
    }
}

impl StaticPageIden {
    /// The SQL name of this identifier.
    pub fn as_str(&self) -> (r: &'static str)
        ensures
            r@ == spec_static_page_iden(*self),
    {
        match self {
            StaticPageIden::Table => "static_pages",
            StaticPageIden::PageId => "page_id",
            StaticPageIden::WebsiteId => "website_id",
            StaticPageIden::UserId => "user_id",
            StaticPageIden::CreatedAt => "created_at",
            StaticPageIden::UpdatedAt => "updated_at",
            StaticPageIden::Components => "components",
        }
    }
}

/// The engine's array-collecting aggregate function.
#[derive(Clone, Copy, Debug, PartialEq, Eq, Structural)]
pub struct ArrayAgg;

impl ArrayAgg {
    /// The SQL name of the aggregate.
    pub fn as_str(&self) -> (r: &'static str)
        ensures
            r@ == "ARRAY_AGG"@,
    {
        "ARRAY_AGG"
    }
}

/// A value bound to a statement placeholder.
#[derive(Clone, Debug)]
pub enum Param {
    Str(String),
    Int(i64),
    Bool(bool),
    OptStr(Option<String>),
}

/// A parameterized statement: the SQL text and the values bound to its
/// placeholders, in placeholder order.
#[derive(Clone, Debug)]
pub struct Statement {
    pub sql: String,
    pub params: Vec<Param>,
}

/// The aggregate select being assembled: its projected columns, its joins
/// and its grouping keys.
pub struct SelectStatement {
    pub columns: String,
    pub joins: String,
    pub group_by: String,
}

/// The sub-query collecting a website's domains into one array column named
/// `domains`: each domain row becomes an anonymous record of id, name and
/// status — the exact field order the wire decoder expects.
pub open spec fn spec_domains_join() -> Seq<char> {
    " LEFT JOIN (SELECT \"website_id\", ARRAY_AGG(ROW(\"domains\".\"domain_id\", \"domains\".\"domain\", \"domains\".\"status\")) AS \"domains\" FROM \"domains\" GROUP BY \"website_id\") AS \"domains\" ON \"websites\".\"website_id\" = \"domains\".\"website_id\""@
}

/// The sub-query collecting a website's pages into one array column named
/// `pages`, in the field order the wire decoder expects.
pub open spec fn spec_pages_join() -> Seq<char> {
    " LEFT JOIN (SELECT \"website_id\", ARRAY_AGG(ROW(\"pages\".\"page_id\", \"pages\".\"page_type\", \"pages\".\"content_id\", \"pages\".\"title\", \"pages\".\"is_home_page\", \"pages\".\"path\")) AS \"pages\" FROM \"pages\" GROUP BY \"website_id\") AS \"pages\" ON \"websites\".\"website_id\" = \"pages\".\"website_id\""@
}

/// The one-to-one join of the customization columns.
pub open spec fn spec_customization_join() -> Seq<char> {
    " LEFT JOIN \"customizations\" ON \"websites\".\"website_id\" = \"customizations\".\"website_id\""@
}

impl crate::model::DomainAsRel {
    /// Adds the domains aggregate column to a select: the sub-query, its
    /// projected column, and its grouping key.
    pub fn add_join(query: &mut SelectStatement)
        ensures
            final(query).columns@ == old(query).columns@ + ", \"domains\".\"domains\""@,
            final(query).joins@ == old(query).joins@ + spec_domains_join(),
            final(query).group_by@ == old(query).group_by@ + ", \"domains\".\"domains\""@,
    {
        query.columns.append(", \"domains\".\"domains\"");
        query.joins.append(
            " LEFT JOIN (SELECT \"website_id\", ARRAY_AGG(ROW(\"domains\".\"domain_id\", \"domains\".\"domain\", \"domains\".\"status\")) AS \"domains\" FROM \"domains\" GROUP BY \"website_id\") AS \"domains\" ON \"websites\".\"website_id\" = \"domains\".\"website_id\"",
        );
        query.group_by.append(", \"domains\".\"domains\"");
    }
}

impl crate::model::PageAsRel {
    /// Adds the pages aggregate column to a select.
    pub fn add_join(query: &mut SelectStatement)
        ensures
            final(query).columns@ == old(query).columns@ + ", \"pages\".\"pages\""@,
            final(query).joins@ == old(query).joins@ + spec_pages_join(),
            final(query).group_by@ == old(query).group_by@ + ", \"pages\".\"pages\""@,
    {
        query.columns.append(", \"pages\".\"pages\"");
        query.joins.append(
            " LEFT JOIN (SELECT \"website_id\", ARRAY_AGG(ROW(\"pages\".\"page_id\", \"pages\".\"page_type\", \"pages\".\"content_id\", \"pages\".\"title\", \"pages\".\"is_home_page\", \"pages\".\"path\")) AS \"pages\" FROM \"pages\" GROUP BY \"website_id\") AS \"pages\" ON \"websites\".\"website_id\" = \"pages\".\"website_id\"",
        );
        query.group_by.append(", \"pages\".\"pages\"");
    }
}

impl crate::model::CustomizationAsRel {
    /// Adds the customization columns to a select: the one-to-one join, its
    /// three projected columns, and their grouping keys.
    pub fn add_join(query: &mut SelectStatement)
        ensures
            final(query).columns@ == old(query).columns@
                + ", \"customizations\".\"primary_color\", \"customizations\".\"secondary_color\", \"customizations\".\"logo_image_url\""@,
            final(query).joins@ == old(query).joins@ + spec_customization_join(),
            final(query).group_by@ == old(query).group_by@
                + ", \"customizations\".\"primary_color\", \"customizations\".\"secondary_color\", \"customizations\".\"logo_image_url\""@,
    {
        query.columns.append(
            ", \"customizations\".\"primary_color\", \"customizations\".\"secondary_color\", \"customizations\".\"logo_image_url\"",
        );
        query.joins.append(
            " LEFT JOIN \"customizations\" ON \"websites\".\"website_id\" = \"customizations\".\"website_id\"",
        );
        query.group_by.append(
            ", \"customizations\".\"primary_color\", \"customizations\".\"secondary_color\", \"customizations\".\"logo_image_url\"",
        );
    }
}

/// The full aggregate select over websites: all website columns, the
/// customization columns, and one pre-aggregated array column per child
/// relation — exactly one result row per website, whatever the child count.
pub open spec fn spec_select_with_relations_sql() -> Seq<char> {
    "SELECT \"websites\".*"@ + ", \"customizations\".\"primary_color\", \"customizations\".\"secondary_color\", \"customizations\".\"logo_image_url\""@
        + ", \"domains\".\"domains\""@ + ", \"pages\".\"pages\""@ + " FROM \"websites\""@
        + spec_customization_join() + spec_domains_join() + spec_pages_join()
        + " GROUP BY \"websites\".\"website_id\""@
        + ", \"customizations\".\"primary_color\", \"customizations\".\"secondary_color\", \"customizations\".\"logo_image_url\""@
        + ", \"domains\".\"domains\""@ + ", \"pages\".\"pages\""@
}

impl crate::model::Website {
    /// Builds the aggregate select over websites; a caller appends its
    /// filter and pagination.
    pub fn select_with_relations() -> (r: String)
        ensures
            r@ == spec_select_with_relations_sql(),
    {
        let mut query = SelectStatement {
            columns: String::from_str("SELECT \"websites\".*"),
            joins: String::from_str(" FROM \"websites\""),
            group_by: String::from_str(" GROUP BY \"websites\".\"website_id\""),
        };
        crate::model::CustomizationAsRel::add_join(&mut query);
        crate::model::DomainAsRel::add_join(&mut query);
        crate::model::PageAsRel::add_join(&mut query);
        let mut sql = query.columns;
        sql.append(query.joins.as_str());
        sql.append(query.group_by.as_str());
        proof {
            assert(sql@ =~= spec_select_with_relations_sql());
        }
        sql
    }

    /// Builds the count select over websites, from nothing but the shared
    /// filter a caller appends — the same filter the data query carries.
    pub fn select_count() -> (r: String)
        ensures
            r@ == "SELECT COUNT(*) AS \"count\" FROM \"websites\""@,
    {
        String::from_str("SELECT COUNT(*) AS \"count\" FROM \"websites\"")
    }
}

/// The owner filter appended to a websites listing, placeholder 1.
pub open spec fn spec_websites_owner_filter() -> Seq<char> {
    " WHERE \"websites\".\"user_id\" = $1"@
}

/// Builds the two statements of one websites listing: the data query (the
/// aggregate select, windowed) and the count query.  Both statements are
/// assembled from one shared filter with identical parameters, so the count
/// ranges over exactly the rows the listing pages through.
pub fn list_websites_statements(user_id: &Option<String>, limit: u64, offset: u64) -> (r: (
    Statement,
    Statement,
))
    ensures
        r.0.sql@ == spec_select_with_relations_sql() + (if user_id is Some {
            spec_websites_owner_filter()
        } else {
            Seq::empty()
        }) + " LIMIT $2 OFFSET $3"@,
        r.1.sql@ == "SELECT COUNT(*) AS \"count\" FROM \"websites\""@ + (if user_id is Some {
            spec_websites_owner_filter()
        } else {
            Seq::empty()
        }),
        r.0.params@.len() == 3,
        r.1.params@.len() == 1,
        (match (r.0.params@[0], r.1.params@[0]) {
            (Param::OptStr(a), Param::OptStr(b)) => a == b && a.deep_view() == user_id.deep_view(),
            _ => false,
        }),
        r.0.params@[1] matches Param::Int(l) && l == limit as i64 || limit > i64::MAX as u64,
        r.0.params@[2] matches Param::Int(o) && o == offset as i64 || offset > i64::MAX as u64,
{
    let mut data_sql = crate::model::Website::select_with_relations();
    let mut count_sql = crate::model::Website::select_count();
    if user_id.is_some() {
        data_sql.append(" WHERE \"websites\".\"user_id\" = $1");
        count_sql.append(" WHERE \"websites\".\"user_id\" = $1");
    } else {
        proof {
            assert(data_sql@ + Seq::<char>::empty() =~= data_sql@);
            assert(count_sql@ + Seq::<char>::empty() =~= count_sql@);
        }
    }
    data_sql.append(" LIMIT $2 OFFSET $3");
    let owner = crate::model::clone_opt_string(user_id);
    let owner_again = crate::model::clone_opt_string(user_id);
    let limit_param: i64 = if limit > 0x7fff_ffff_ffff_ffffu64 {
        i64::MAX
    } else {
        limit as i64
    };
    let offset_param: i64 = if offset > 0x7fff_ffff_ffff_ffffu64 {
        i64::MAX
    } else {
        offset as i64
    };
    let mut data_params: Vec<Param> = Vec::new();
    data_params.push(Param::OptStr(owner));
    data_params.push(Param::Int(limit_param));
    data_params.push(Param::Int(offset_param));
    let mut count_params: Vec<Param> = Vec::new();
    count_params.push(Param::OptStr(owner_again));
    (
        Statement { sql: data_sql, params: data_params },
        Statement { sql: count_sql, params: count_params },
    )
}

/// Builds the insert of a domain row: placeholders for the website, the
/// owner, the name, and the status name, returning the inserted row.
pub fn insert_domain_statement(
    website_id: &str,
    user_id: &str,
    domain: &str,
    status: DomainStatus,
) -> (r: Statement)
    ensures
        r.sql@
            == "INSERT INTO \"domains\" (\"website_id\", \"user_id\", \"domain\", \"status\") VALUES ($1, $2, $3, $4) RETURNING *"@,
        r.params@.len() == 4,
        r.params@[0] matches Param::Str(v) && v@ == website_id@,
        r.params@[1] matches Param::Str(v) && v@ == user_id@,
        r.params@[2] matches Param::Str(v) && v@ == domain@,
        r.params@[3] matches Param::Str(v) && v@ == spec_domain_status_name(status),
{
    let sql = String::from_str(
        "INSERT INTO \"domains\" (\"website_id\", \"user_id\", \"domain\", \"status\") VALUES ($1, $2, $3, $4) RETURNING *",
    );
    let mut params: Vec<Param> = Vec::new();
    params.push(Param::Str(website_id.to_owned()));
    params.push(Param::Str(user_id.to_owned()));
    params.push(Param::Str(domain.to_owned()));
    params.push(Param::Str(status.as_str_name().to_owned()));
    Statement { sql, params }
}

/// Builds the status update of a domain row, scoped to its website and
/// owner, returning the updated row.
pub fn update_domain_status_statement(
    domain_id: i64,
    website_id: &str,
    user_id: &str,
    status: DomainStatus,
) -> (r: Statement)
    ensures
        r.sql@
            == "UPDATE \"domains\" SET \"status\" = $1 WHERE \"domain_id\" = $2 AND \"website_id\" = $3 AND \"user_id\" = $4 RETURNING *"@,
        r.params@.len() == 4,
        r.params@[0] matches Param::Str(v) && v@ == spec_domain_status_name(status),
        r.params@[1] matches Param::Int(v) && v == domain_id,
        r.params@[2] matches Param::Str(v) && v@ == website_id@,
        r.params@[3] matches Param::Str(v) && v@ == user_id@,
{
    let sql = String::from_str(
        "UPDATE \"domains\" SET \"status\" = $1 WHERE \"domain_id\" = $2 AND \"website_id\" = $3 AND \"user_id\" = $4 RETURNING *",
    );
    let mut params: Vec<Param> = Vec::new();
    params.push(Param::Str(status.as_str_name().to_owned()));
    params.push(Param::Int(domain_id));
    params.push(Param::Str(website_id.to_owned()));
    params.push(Param::Str(user_id.to_owned()));
    Statement { sql, params }
}

} // verus!