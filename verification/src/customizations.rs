//! Customization of a website's appearance: colors and the logo image.
//!
//! The logo is stored under an opaque object-storage key; its public address
//! is computed at response time from the image collaborator's base address.
//! Uploading and removing the stored object is the embedding process's work;
//! the operations here decide what to store and hand back the keys whose
//! objects must be uploaded or removed.

use vstd::prelude::*;

use crate::errors::{Code, Status};
use crate::images::ImageService;
use crate::model::{clone_opt_string, Customization, CustomizationV};
use crate::store::{Store, StoreV};

verus! {

/// Relies on uuid's random generator: the hyphenated form of a fresh random
/// identifier is 36 characters long.  The value is random, so nothing more
/// is promised of it.
#[verifier::external_body]
fn new_uuid_string() -> (r: String)
    ensures
        r@.len() == 36,
{
    uuid::Uuid::new_v4().to_string()
}

/// A customization row fetched by website id is the row at any index whose
/// website id matches: customizations are one-to-one with websites.
proof fn lemma_customization_row_unique(
    s: crate::store::StoreV,
    row: CustomizationV,
    i: int,
)
    requires
        s.wf(),
        s.customizations.contains(row),
        0 <= i < s.customizations.len(),
        s.customizations[i].website_id == row.website_id,
    ensures
        s.customizations[i] == row,
{
    let j = choose|j: int| 0 <= j < s.customizations.len() && s.customizations[j] == row;
    if i != j {
        if i < j {
            assert(s.customizations[i].website_id != s.customizations[j].website_id);
        } else {
            assert(s.customizations[j].website_id != s.customizations[i].website_id);
        }
    }
}

/// Customization operations over the store.
pub struct CustomizationService {}

impl CustomizationService {
    /// A fresh storage key for a logo: owner, website and a random token.
    pub fn gen_image_path(user_id: &str, website_id: &str) -> (r: String)
        ensures
            r@.len() == user_id@.len() + website_id@.len() + 38,
    {
        let mut path = String::from_str(user_id);
        path.append("/");
        path.append(website_id);
        path.append("/");
        let token = new_uuid_string();
        path.append(token.as_str());
        proof {
            reveal_strlit("/");
        }
        path
    }

    /// Replaces the two colors of a website's customization, scoped to its
    /// owner; the stored logo key is kept.
    pub fn update_customization(
        store: &mut Store,
        user_id: &str,
        website_id: &str,
        primary_color: Option<String>,
        secondary_color: Option<String>,
    ) -> (r: Result<Customization, Status>)
        requires
            old(store)@.wf(),
        ensures
            final(store)@.wf(),
            match r {
                Ok(c) => exists|i: int|
                    {
                        &&& 0 <= i < old(store)@.customizations.len()
                        &&& (#[trigger] old(store)@.customizations[i]).website_id == website_id@
                        &&& old(store)@.customizations[i].user_id == user_id@
                        &&& c@ == (CustomizationV {
                            primary_color: primary_color.deep_view(),
                            secondary_color: secondary_color.deep_view(),
                            ..old(store)@.customizations[i]
                        })
                        &&& final(store)@ == (StoreV {
                            customizations: old(store)@.customizations.update(i, c@),
                            ..old(store)@
                        })
                    },
                Err(st) => {
                    &&& *final(store) == *old(store)
                    &&& st.code == Code::NotFound
                    &&& forall|i: int|
                        0 <= i < old(store)@.customizations.len() ==> !((
                        #[trigger] old(store)@.customizations[i]).website_id == website_id@ && old(
                            store,
                        )@.customizations[i].user_id == user_id@)
                },
            },
    {
        let existing = match Customization::get_for_user(store, website_id, user_id) {
            Some(c) => c,
            None => {
                return Err(Status::not_found(""));
            },
        };
        let logo = clone_opt_string(&existing.logo_image_url);
        match Customization::update(
            store,
            website_id,
            user_id,
            primary_color,
            secondary_color,
            logo,
        ) {
            Ok(c) => {
                proof {
                    let i = choose|i: int|
                        {
                            &&& 0 <= i < old(store)@.customizations.len()
                            &&& (#[trigger] old(store)@.customizations[i]).website_id
                                == website_id@
                            &&& old(store)@.customizations[i].user_id == user_id@
                            &&& c@ == (CustomizationV {
                                primary_color: primary_color.deep_view(),
                                secondary_color: secondary_color.deep_view(),
                                logo_image_url: existing@.logo_image_url,
                                ..old(store)@.customizations[i]
                            })
                            &&& store@ == (StoreV {
                                customizations: old(store)@.customizations.update(i, c@),
                                ..old(store)@
                            })
                        };
                    lemma_customization_row_unique(old(store)@, existing@, i);
                }
                Ok(c)
            },
            Err(e) => Err(Status::from_db_error(e)),
        }
    }

    /// Accepts a logo upload: the bytes must pass validation, a fresh
    /// storage key is recorded, and the keys to act on are returned — the
    /// new key to upload the image under, and the previous key, if any,
    /// whose object should be removed.
    pub fn put_logo_image(
        store: &mut Store,
        image_service: &ImageService,
        user_id: &str,
        website_id: &str,
        image_data: &[u8],
    ) -> (r: Result<(String, Option<String>), Status>)
        requires
            old(store)@.wf(),
        ensures
            final(store)@.wf(),
            match r {
                Ok((new_path, previous)) => {
                    &&& image_data@.len() <= image_service.max_size
                    &&& crate::images::spec_accepted_image(image_data@)
                    &&& exists|i: int|
                        {
                            &&& 0 <= i < old(store)@.customizations.len()
                            &&& (#[trigger] old(store)@.customizations[i]).website_id
                                == website_id@
                            &&& old(store)@.customizations[i].user_id == user_id@
                            &&& previous.deep_view() == old(store)@.customizations[
                                i].logo_image_url
                            &&& final(store)@ == (StoreV {
                                customizations: old(store)@.customizations.update(
                                    i,
                                    CustomizationV {
                                        logo_image_url: Some(new_path@),
                                        ..old(store)@.customizations[i]
                                    },
                                ),
                                ..old(store)@
                            })
                        }
                },
                Err(st) => {
                    &&& *final(store) == *old(store)
                    &&& match st.code {
                        Code::ResourceExhausted => image_data@.len() > image_service.max_size,
                        Code::InvalidArgument => image_data@.len() <= image_service.max_size
                            && !crate::images::spec_accepted_image(image_data@),
                        Code::NotFound => {
                            &&& image_data@.len() <= image_service.max_size
                            &&& crate::images::spec_accepted_image(image_data@)
                            &&& forall|i: int|
                                0 <= i < old(store)@.customizations.len() ==> !((
                                #[trigger] old(store)@.customizations[i]).website_id == website_id@
                                    && old(store)@.customizations[i].user_id == user_id@)
                        },
                        _ => false,
                    }
                },
            },
    {
        if let Err(st) = image_service.validate_image(image_data) {
            return Err(st);
        }
        let existing = match Customization::get_for_user(store, website_id, user_id) {
            Some(c) => c,
            None => {
                return Err(Status::not_found(""));
            },
        };
        let previous = clone_opt_string(&existing.logo_image_url);
        let new_path = Self::gen_image_path(user_id, website_id);
        let primary = clone_opt_string(&existing.primary_color);
        let secondary = clone_opt_string(&existing.secondary_color);
        match Customization::update(
            store,
            website_id,
            user_id,
            primary,
            secondary,
            Some(new_path.clone()),
        ) {
            Ok(c) => {
                proof {
                    let i = choose|i: int|
                        {
                            &&& 0 <= i < old(store)@.customizations.len()
                            &&& (#[trigger] old(store)@.customizations[i]).website_id
                                == website_id@
                            &&& old(store)@.customizations[i].user_id == user_id@
                            &&& c@ == (CustomizationV {
                                primary_color: existing@.primary_color,
                                secondary_color: existing@.secondary_color,
                                logo_image_url: Some(new_path@),
                                ..old(store)@.customizations[i]
                            })
                            &&& store@ == (StoreV {
                                customizations: old(store)@.customizations.update(i, c@),
                                ..old(store)@
                            })
                        };
                    lemma_customization_row_unique(old(store)@, existing@, i);
                    assert(c@ == (CustomizationV {
                        logo_image_url: Some(new_path@),
                        ..old(store)@.customizations[i]
                    }));
                }
                Ok((new_path, previous))
            },
            Err(e) => Err(Status::from_db_error(e)),
        }
    }

    /// Clears a website's logo, returning the previous storage key, if any,
    /// whose object should be removed.
    pub fn remove_logo_image(store: &mut Store, user_id: &str, website_id: &str) -> (r: Result<
        Option<String>,
        Status,
    >)
        requires
            old(store)@.wf(),
        ensures
            final(store)@.wf(),
            match r {
                Ok(previous) => exists|i: int|
                    {
                        &&& 0 <= i < old(store)@.customizations.len()
                        &&& (#[trigger] old(store)@.customizations[i]).website_id == website_id@
                        &&& old(store)@.customizations[i].user_id == user_id@
                        &&& previous.deep_view() == old(store)@.customizations[i].logo_image_url
                        &&& final(store)@ == (StoreV {
                            customizations: old(store)@.customizations.update(
                                i,
                                CustomizationV {
                                    logo_image_url: None,
                                    ..old(store)@.customizations[i]
                                },
                            ),
                            ..old(store)@
                        })
                    },
                Err(st) => {
                    &&& *final(store) == *old(store)
                    &&& st.code == Code::NotFound
                    &&& forall|i: int|
                        0 <= i < old(store)@.customizations.len() ==> !((
                        #[trigger] old(store)@.customizations[i]).website_id == website_id@ && old(
                            store,
                        )@.customizations[i].user_id == user_id@)
                },
            },
    {
        let existing = match Customization::get_for_user(store, website_id, user_id) {
            Some(c) => c,
            None => {
                return Err(Status::not_found(""));
            },
        };
        let previous = clone_opt_string(&existing.logo_image_url);
        let primary = clone_opt_string(&existing.primary_color);
        let secondary = clone_opt_string(&existing.secondary_color);
        match Customization::update(store, website_id, user_id, primary, secondary, None) {
            Ok(c) => {
                proof {
                    let i = choose|i: int|
                        {
                            &&& 0 <= i < old(store)@.customizations.len()
                            &&& (#[trigger] old(store)@.customizations[i]).website_id
                                == website_id@
                            &&& old(store)@.customizations[i].user_id == user_id@
                            &&& c@ == (CustomizationV {
                                primary_color: existing@.primary_color,
                                secondary_color: existing@.secondary_color,
                                logo_image_url: None,
                                ..old(store)@.customizations[i]
                            })
                            &&& store@ == (StoreV {
                                customizations: old(store)@.customizations.update(i, c@),
                                ..old(store)@
                            })
                        };
                    lemma_customization_row_unique(old(store)@, existing@, i);
                    assert(c@ == (CustomizationV {
                        logo_image_url: None,
                        ..old(store)@.customizations[i]
                    }));
                }
                Ok(previous)
            },
            Err(e) => Err(Status::from_db_error(e)),
        }
    }
}

} // verus!
