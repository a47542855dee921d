//! Reading and replacing the structured document of a static page.  The
//! component tree is an opaque document to this layer; it is carried as
//! text.

use vstd::prelude::*;

use crate::errors::{Code, Status};
use crate::model::{StaticPage, StaticPageV};
use crate::store::{Store, StoreV};

verus! {

/// Static-page operations over the store.
pub struct StaticPageService {}

impl StaticPageService {
    /// Fetches the structured document of a page, if one exists.
    pub fn get_static_page(store: &Store, page_id: i64) -> (r: Option<StaticPage>)
        requires
            store@.wf(),
        ensures
            match r {
                Some(sp) => store@.static_pages.contains(sp@) && sp@.page_id == page_id,
                None => forall|i: int|
                    0 <= i < store@.static_pages.len() ==> (
                    #[trigger] store@.static_pages[i]).page_id != page_id,
            },
    {
        StaticPage::get(store, page_id)
    }

    /// Replaces the structured document of a page the user owns.
    pub fn update_static_page(
        store: &mut Store,
        user_id: &str,
        page_id: i64,
        components: &str,
    ) -> (r: Result<StaticPage, Status>)
        requires
            old(store)@.wf(),
        ensures
            final(store)@.wf(),
            match r {
                Ok(sp) => exists|i: int|
                    {
                        &&& 0 <= i < old(store)@.static_pages.len()
                        &&& (#[trigger] old(store)@.static_pages[i]).page_id == page_id
                        &&& old(store)@.static_pages[i].user_id == user_id@
                        &&& sp@ == (StaticPageV {
                            components: components@,
                            updated_at: old(store)@.now,
                            ..old(store)@.static_pages[i]
                        })
                        &&& final(store)@ == (StoreV {
                            static_pages: old(store)@.static_pages.update(i, sp@),
                            ..old(store)@
                        })
                    },
                Err(st) => {
                    &&& *final(store) == *old(store)
                    &&& st.code == Code::NotFound
                    &&& forall|i: int|
                        0 <= i < old(store)@.static_pages.len() ==> !((
                        #[trigger] old(store)@.static_pages[i]).page_id == page_id && old(
                            store,
                        )@.static_pages[i].user_id == user_id@)
                },
            },
    {
        match StaticPage::update(store, page_id, user_id, components) {
            Ok(sp) => {
                proof {
                    let i = choose|i: int|
                        {
                            &&& 0 <= i < old(store)@.static_pages.len()
                            &&& (#[trigger] old(store)@.static_pages[i]).page_id == page_id
                            &&& old(store)@.static_pages[i].user_id == user_id@
                            &&& sp@ == (StaticPageV {
                                components: components@,
                                updated_at: old(store)@.now,
                                ..old(store)@.static_pages[i]
                            })
                            &&& store@ == (StoreV {
                                static_pages: old(store)@.static_pages.update(i, sp@),
                                ..old(store)@
                            })
                        };
                    assert(store@.static_pages[i] == sp@);
                }
                Ok(sp)
            },
            Err(e) => Err(Status::from_db_error(e)),
        }
    }
}

} // verus!
