//! Typed entities of the service and their mathematical views.
//!
//! Each entity mirrors one relation of the persisted schema.  Timestamps are
//! plain epoch seconds; the structured page document is carried as opaque
//! text.  The `*AsRel` types are the child-row projections produced by the
//! aggregate queries and decoded from the engine's composite wire encoding.

use vstd::prelude::*;
use vstd::string::StringSliceAdditionalSpecFns;

verus! {

/// Compares two string slices by contents.
pub fn str_eq(a: &str, b: &str) -> (r: bool)
    ensures
        r == (a@ == b@),
{
    let ab = a.as_bytes();
    let bb = b.as_bytes();
    if ab.len() != bb.len() {
        proof {
            assert(a@ != b@) by {
                if a@ == b@ {
                    assert(ab@ == bb@);
                }
            }
        }
        return false;
    }
    let n = ab.len();
    let mut i: usize = 0;
    while i < n
        invariant
            n == ab@.len() == bb@.len(),
            i <= n,
            forall|j: int| 0 <= j < i ==> ab@[j] == bb@[j],
            ab@ == a.spec_bytes(),
            bb@ == b.spec_bytes(),
        decreases n - i,
    {
        if ab[i] != bb[i] {
            proof {
                assert(a@ != b@) by {
                    if a@ == b@ {
                        assert(ab@ == bb@);
                    }
                }
            }
            return false;
        }
        i += 1;
    }
    proof {
        assert(ab@ =~= bb@);
        vstd::utf8::encode_utf8_decode_utf8(a@);
        vstd::utf8::encode_utf8_decode_utf8(b@);
        assert(a@ == b@);
    }
    true
}

/// Copies an optional string; unlike the derived clone this carries a
/// contract.
pub fn clone_opt_string(o: &Option<String>) -> (r: Option<String>)
    ensures
        r == *o,
{
    match o {
        Some(s) => Some(s.clone()),
        None => None,
    }
}

/// Lifecycle states of a custom domain.  `Internal` is the platform-assigned
/// subdomain and is terminal; user-added domains start `Pending` and may
/// reach `Active` once ownership is verified.
#[derive(Clone, Copy, Debug, PartialEq, Eq, Structural)]
pub enum DomainStatus {
    Unspecified,
    Internal,
    Pending,
    Active,
}

/// The wire name of each domain status.
pub open spec fn spec_domain_status_name(s: DomainStatus) -> Seq<char> {
    match s {
        DomainStatus::Unspecified => "DOMAIN_STATUS_UNSPECIFIED"@,
        DomainStatus::Internal => "DOMAIN_STATUS_INTERNAL"@,
        DomainStatus::Pending => "DOMAIN_STATUS_PENDING"@,
        DomainStatus::Active => "DOMAIN_STATUS_ACTIVE"@,
    }
}

impl DomainStatus {
    /// The name under which this status is persisted and serialized.
    pub fn as_str_name(&self) -> (r: &'static str)
        ensures
            r@ == spec_domain_status_name(*self),
    {
        match self {
            DomainStatus::Unspecified => "DOMAIN_STATUS_UNSPECIFIED",
            DomainStatus::Internal => "DOMAIN_STATUS_INTERNAL",
            DomainStatus::Pending => "DOMAIN_STATUS_PENDING",
            DomainStatus::Active => "DOMAIN_STATUS_ACTIVE",
        }
    }

    /// Parses a persisted status name; returns `None` for any other string.
    pub fn from_str_name(name: &str) -> (r: Option<DomainStatus>)
        ensures
            match r {
                Some(s) => name@ == spec_domain_status_name(s),
                None => forall|s: DomainStatus| name@ != spec_domain_status_name(s),
            },
    {
        if str_eq(name, "DOMAIN_STATUS_UNSPECIFIED") {
            Some(DomainStatus::Unspecified)
        } else if str_eq(name, "DOMAIN_STATUS_INTERNAL") {
            Some(DomainStatus::Internal)
        } else if str_eq(name, "DOMAIN_STATUS_PENDING") {
            Some(DomainStatus::Pending)
        } else if str_eq(name, "DOMAIN_STATUS_ACTIVE") {
            Some(DomainStatus::Active)
        } else {
            proof {
                assert forall|s: DomainStatus| name@ != spec_domain_status_name(s) by {
                    match s {
                        DomainStatus::Unspecified => {},
                        DomainStatus::Internal => {},
                        DomainStatus::Pending => {},
                        DomainStatus::Active => {},
                    }
                }
            }
            None
        }
    }
}

/// Kinds of page a website can carry.  Only `Static` pages hold a structured
/// document in this service.
#[derive(Clone, Copy, Debug, PartialEq, Eq, Structural)]
pub enum PageType {
    Unspecified,
    Static,
}

/// The wire name of each page type.
pub open spec fn spec_page_type_name(t: PageType) -> Seq<char> {
    match t {
        PageType::Unspecified => "PAGE_TYPE_UNSPECIFIED"@,
        PageType::Static => "PAGE_TYPE_STATIC"@,
    }
}

impl PageType {
    /// The name under which this page type is persisted and serialized.
    pub fn as_str_name(&self) -> (r: &'static str)
        ensures
            r@ == spec_page_type_name(*self),
    {
        match self {
            PageType::Unspecified => "PAGE_TYPE_UNSPECIFIED",
            PageType::Static => "PAGE_TYPE_STATIC",
        }
    }

    /// Parses a persisted page-type name; returns `None` for any other string.
    pub fn from_str_name(name: &str) -> (r: Option<PageType>)
        ensures
            match r {
                Some(t) => name@ == spec_page_type_name(t),
                None => forall|t: PageType| name@ != spec_page_type_name(t),
            },
    {
        if str_eq(name, "PAGE_TYPE_UNSPECIFIED") {
            Some(PageType::Unspecified)
        } else if str_eq(name, "PAGE_TYPE_STATIC") {
            Some(PageType::Static)
        } else {
            proof {
                assert forall|t: PageType| name@ != spec_page_type_name(t) by {
                    match t {
                        PageType::Unspecified => {},
                        PageType::Static => {},
                    }
                }
            }
            None
        }
    }

    /// Numeric wire tag of this page type.
    pub fn from_i32(tag: i32) -> (r: Option<PageType>)
        ensures
            r == (if tag == 0 {
                Some(PageType::Unspecified)
            } else if tag == 1 {
                Some(PageType::Static)
            } else {
                None::<PageType>
            }),
    {
        if tag == 0 {
            Some(PageType::Unspecified)
        } else if tag == 1 {
            Some(PageType::Static)
        } else {
            None
        }
    }
}

/// Child-row projection of a domain inside a website aggregate.
#[derive(Clone, Debug)]
pub struct DomainAsRel {
    pub domain_id: i64,
    pub domain: String,
    pub status: String,
}

/// Mathematical view of [`DomainAsRel`].
pub struct DomainAsRelV {
    pub domain_id: i64,
    pub domain: Seq<char>,
    pub status: Seq<char>,
}

impl View for DomainAsRel {
    type V = DomainAsRelV;

    open spec fn view(&self) -> DomainAsRelV {
        DomainAsRelV { domain_id: self.domain_id, domain: self.domain@, status: self.status@ }
    }
}

impl DeepView for DomainAsRel {
    type V = DomainAsRelV;

    open spec fn deep_view(&self) -> DomainAsRelV {
        self.view()
    }
}

/// The domains column of a website aggregate row, decoded.
#[derive(Clone, Debug)]
pub struct DomainAsRelVec(pub Vec<DomainAsRel>);

/// Child-row projection of a page inside a website aggregate.
#[derive(Clone, Debug)]
pub struct PageAsRel {
    pub page_id: i64,
    pub page_type: String,
    pub content_id: String,
    pub title: String,
    pub is_home_page: bool,
    pub path: String,
}

/// Mathematical view of [`PageAsRel`].
pub struct PageAsRelV {
    pub page_id: i64,
    pub page_type: Seq<char>,
    pub content_id: Seq<char>,
    pub title: Seq<char>,
    pub is_home_page: bool,
    pub path: Seq<char>,
}

impl View for PageAsRel {
    type V = PageAsRelV;

    open spec fn view(&self) -> PageAsRelV {
        PageAsRelV {
            page_id: self.page_id,
            page_type: self.page_type@,
            content_id: self.content_id@,
            title: self.title@,
            is_home_page: self.is_home_page,
            path: self.path@,
        }
    }
}

impl DeepView for PageAsRel {
    type V = PageAsRelV;

    open spec fn deep_view(&self) -> PageAsRelV {
        self.view()
    }
}

/// The pages column of a website aggregate row, decoded.
#[derive(Clone, Debug)]
pub struct PageAsRelVec(pub Vec<PageAsRel>);

/// Customization columns joined into a website aggregate row.
#[derive(Clone, Debug)]
pub struct CustomizationAsRel {
    pub primary_color: Option<String>,
    pub secondary_color: Option<String>,
    pub logo_image_url: Option<String>,
}

/// Mathematical view of [`CustomizationAsRel`].
pub struct CustomizationAsRelV {
    pub primary_color: Option<Seq<char>>,
    pub secondary_color: Option<Seq<char>>,
    pub logo_image_url: Option<Seq<char>>,
}

impl View for CustomizationAsRel {
    type V = CustomizationAsRelV;

    open spec fn view(&self) -> CustomizationAsRelV {
        CustomizationAsRelV {
            primary_color: self.primary_color.deep_view(),
            secondary_color: self.secondary_color.deep_view(),
            logo_image_url: self.logo_image_url.deep_view(),
        }
    }
}

impl DeepView for CustomizationAsRel {
    type V = CustomizationAsRelV;

    open spec fn deep_view(&self) -> CustomizationAsRelV {
        self.view()
    }
}

/// A website row; on aggregate reads the child collections are attached.
#[derive(Clone, Debug)]
pub struct Website {
    pub website_id: String,
    pub user_id: String,
    pub created_at: i64,
    pub updated_at: i64,
    pub name: String,
    pub client_id: String,
    pub zitadel_app_id: String,
    pub customization: Option<CustomizationAsRel>,
    pub domains: Vec<DomainAsRel>,
    pub pages: Vec<PageAsRel>,
}

/// Mathematical view of [`Website`].
pub struct WebsiteV {
    pub website_id: Seq<char>,
    pub user_id: Seq<char>,
    pub created_at: i64,
    pub updated_at: i64,
    pub name: Seq<char>,
    pub client_id: Seq<char>,
    pub zitadel_app_id: Seq<char>,
    pub customization: Option<CustomizationAsRelV>,
    pub domains: Seq<DomainAsRelV>,
    pub pages: Seq<PageAsRelV>,
}

impl View for Website {
    type V = WebsiteV;

    open spec fn view(&self) -> WebsiteV {
        WebsiteV {
            website_id: self.website_id@,
            user_id: self.user_id@,
            created_at: self.created_at,
            updated_at: self.updated_at,
            name: self.name@,
            client_id: self.client_id@,
            zitadel_app_id: self.zitadel_app_id@,
            customization: self.customization.deep_view(),
            domains: self.domains.deep_view(),
            pages: self.pages.deep_view(),
        }
    }
}

impl DeepView for Website {
    type V = WebsiteV;

    open spec fn deep_view(&self) -> WebsiteV {
        self.view()
    }
}

/// A custom-domain row.
#[derive(Clone, Debug)]
pub struct Domain {
    pub domain_id: i64,
    pub website_id: String,
    pub user_id: String,
    pub created_at: i64,
    pub updated_at: i64,
    pub domain: String,
    pub status: DomainStatus,
}

/// Mathematical view of [`Domain`].
pub struct DomainV {
    pub domain_id: i64,
    pub website_id: Seq<char>,
    pub user_id: Seq<char>,
    pub created_at: i64,
    pub updated_at: i64,
    pub domain: Seq<char>,
    pub status: DomainStatus,
}

impl View for Domain {
    type V = DomainV;

    open spec fn view(&self) -> DomainV {
        DomainV {
            domain_id: self.domain_id,
            website_id: self.website_id@,
            user_id: self.user_id@,
            created_at: self.created_at,
            updated_at: self.updated_at,
            domain: self.domain@,
            status: self.status,
        }
    }
}

impl DeepView for Domain {
    type V = DomainV;

    open spec fn deep_view(&self) -> DomainV {
        self.view()
    }
}

impl Domain {
    /// Copies this row; unlike the derived clone this carries a contract.
    pub fn duplicate(&self) -> (r: Domain)
        ensures
            r == *self,
    {
        Domain {
            domain_id: self.domain_id,
            website_id: self.website_id.clone(),
            user_id: self.user_id.clone(),
            created_at: self.created_at,
            updated_at: self.updated_at,
            domain: self.domain.clone(),
            status: self.status,
        }
    }

    /// This domain's child-row projection, as it appears inside a website
    /// aggregate.
    pub fn to_rel(&self) -> (r: DomainAsRel)
        ensures
            r@.domain_id == self.domain_id,
            r@.domain == self.domain@,
            r@.status == spec_domain_status_name(self.status),
    {
        DomainAsRel {
            domain_id: self.domain_id,
            domain: self.domain.clone(),
            status: self.status.as_str_name().to_owned(),
        }
    }
}

/// A page row.
#[derive(Clone, Debug)]
pub struct Page {
    pub page_id: i64,
    pub website_id: String,
    pub user_id: String,
    pub created_at: i64,
    pub updated_at: i64,
    pub page_type: PageType,
    pub content_id: String,
    pub title: String,
    pub is_home_page: bool,
    pub path: String,
}

/// Mathematical view of [`Page`].
pub struct PageV {
    pub page_id: i64,
    pub website_id: Seq<char>,
    pub user_id: Seq<char>,
    pub created_at: i64,
    pub updated_at: i64,
    pub page_type: PageType,
    pub content_id: Seq<char>,
    pub title: Seq<char>,
    pub is_home_page: bool,
    pub path: Seq<char>,
}

impl View for Page {
    type V = PageV;

    open spec fn view(&self) -> PageV {
        PageV {
            page_id: self.page_id,
            website_id: self.website_id@,
            user_id: self.user_id@,
            created_at: self.created_at,
            updated_at: self.updated_at,
            page_type: self.page_type,
            content_id: self.content_id@,
            title: self.title@,
            is_home_page: self.is_home_page,
            path: self.path@,
        }
    }
}

impl DeepView for Page {
    type V = PageV;

    open spec fn deep_view(&self) -> PageV {
        self.view()
    }
}

impl Page {
    /// Copies this row; unlike the derived clone this carries a contract.
    pub fn duplicate(&self) -> (r: Page)
        ensures
            r == *self,
    {
        Page {
            page_id: self.page_id,
            website_id: self.website_id.clone(),
            user_id: self.user_id.clone(),
            created_at: self.created_at,
            updated_at: self.updated_at,
            page_type: self.page_type,
            content_id: self.content_id.clone(),
            title: self.title.clone(),
            is_home_page: self.is_home_page,
            path: self.path.clone(),
        }
    }

    /// This page's child-row projection, as it appears inside a website
    /// aggregate.
    pub fn to_rel(&self) -> (r: PageAsRel)
        ensures
            r@.page_id == self.page_id,
            r@.page_type == spec_page_type_name(self.page_type),
            r@.content_id == self.content_id@,
            r@.title == self.title@,
            r@.is_home_page == self.is_home_page,
            r@.path == self.path@,
    {
        PageAsRel {
            page_id: self.page_id,
            page_type: self.page_type.as_str_name().to_owned(),
            content_id: self.content_id.clone(),
            title: self.title.clone(),
            is_home_page: self.is_home_page,
            path: self.path.clone(),
        }
    }
}

/// A customization row, one-to-one with its website.
#[derive(Clone, Debug)]
pub struct Customization {
    pub website_id: String,
    pub user_id: String,
    pub primary_color: Option<String>,
    pub secondary_color: Option<String>,
    pub logo_image_url: Option<String>,
}

/// Mathematical view of [`Customization`].
pub struct CustomizationV {
    pub website_id: Seq<char>,
    pub user_id: Seq<char>,
    pub primary_color: Option<Seq<char>>,
    pub secondary_color: Option<Seq<char>>,
    pub logo_image_url: Option<Seq<char>>,
}

impl View for Customization {
    type V = CustomizationV;

    open spec fn view(&self) -> CustomizationV {
        CustomizationV {
            website_id: self.website_id@,
            user_id: self.user_id@,
            primary_color: self.primary_color.deep_view(),
            secondary_color: self.secondary_color.deep_view(),
            logo_image_url: self.logo_image_url.deep_view(),
        }
    }
}

impl DeepView for Customization {
    type V = CustomizationV;

    open spec fn deep_view(&self) -> CustomizationV {
        self.view()
    }
}

impl Customization {
    /// Copies this row; unlike the derived clone this carries a contract.
    pub fn duplicate(&self) -> (r: Customization)
        ensures
            r == *self,
    {
        Customization {
            website_id: self.website_id.clone(),
            user_id: self.user_id.clone(),
            primary_color: clone_opt_string(&self.primary_color),
            secondary_color: clone_opt_string(&self.secondary_color),
            logo_image_url: clone_opt_string(&self.logo_image_url),
        }
    }

    /// This customization's projection inside a website aggregate.
    pub fn to_rel(&self) -> (r: CustomizationAsRel)
        ensures
            r@.primary_color == self.primary_color.deep_view(),
            r@.secondary_color == self.secondary_color.deep_view(),
            r@.logo_image_url == self.logo_image_url.deep_view(),
    {
        CustomizationAsRel {
            primary_color: self.primary_color.clone(),
            secondary_color: self.secondary_color.clone(),
            logo_image_url: self.logo_image_url.clone(),
        }
    }
}

/// The structured document of a static page; the component tree is opaque
/// text to this layer.
#[derive(Clone, Debug)]
pub struct StaticPage {
    pub page_id: i64,
    pub website_id: String,
    pub user_id: String,
    pub created_at: i64,
    pub updated_at: i64,
    pub components: String,
}

impl StaticPage {
    /// Copies this row; unlike the derived clone this carries a contract.
    pub fn duplicate(&self) -> (r: StaticPage)
        ensures
            r == *self,
    {
        StaticPage {
            page_id: self.page_id,
            website_id: self.website_id.clone(),
            user_id: self.user_id.clone(),
            created_at: self.created_at,
            updated_at: self.updated_at,
            components: self.components.clone(),
        }
    }
}

/// Mathematical view of [`StaticPage`].
pub struct StaticPageV {
    pub page_id: i64,
    pub website_id: Seq<char>,
    pub user_id: Seq<char>,
    pub created_at: i64,
    pub updated_at: i64,
    pub components: Seq<char>,
}

impl View for StaticPage {
    type V = StaticPageV;

    open spec fn view(&self) -> StaticPageV {
        StaticPageV {
            page_id: self.page_id,
            website_id: self.website_id@,
            user_id: self.user_id@,
            created_at: self.created_at,
            updated_at: self.updated_at,
            components: self.components@,
        }
    }
}

impl DeepView for StaticPage {
    type V = StaticPageV;

    open spec fn deep_view(&self) -> StaticPageV {
        self.view()
    }
}

} // verus!
