use vstd::prelude::*;
use vstd::string::*;

use crate::links::{insert_or_update, link_views, resolve_relative_links, resolved, upsert_all, Link, LinkView};
use crate::listing::GEO_JSON;
use crate::store::{registered, StoreError};

verus! {

/// A new collection may be created only under an identifier not in use.
pub fn check_new_collection(names: &Vec<String>, id: &str) -> (r: Result<(), StoreError>)
    ensures
        r.is_ok() <==> !registered(names@, id@),
        r.is_err() ==> r == Err::<(), StoreError>(StoreError::Conflict),
{
    let wanted = String::from_str(id);
    let mut i: usize = 0;
    while i < names.len()
        invariant
            i <= names@.len(),
            wanted@ == id@,
            forall|k: int| 0 <= k < i ==> (#[trigger] names@[k])@ != id@,
        decreases names@.len() - i,
    {
        if names[i] == wanted {
            return Err(StoreError::Conflict);
        }
        i = i + 1;
    }
    Ok(())
}

/// The links of a collection as served: `self`, `root` and `items` merged
/// into its stored links, then relative hrefs anchored at `base`.
pub open spec fn collection_links(
    stored: Seq<LinkView>,
    self_href: Seq<char>,
    root_href: Seq<char>,
    items_href: Seq<char>,
    base: Seq<char>,
) -> Seq<LinkView> {
    let own = seq![
        LinkView { href: self_href, rel: "self"@, media_type: None, title: None },
        LinkView { href: root_href, rel: "root"@, media_type: Some("application/json"@), title: None },
        LinkView { href: items_href, rel: "items"@, media_type: Some(GEO_JSON@), title: None },
    ];
    upsert_all(stored, own).map_values(|l: LinkView| resolved(l, base))
}

/// Completes the links of a collection read from storage.
pub fn finish_collection_links(
    links: &mut Vec<Link>,
    self_href: &str,
    root_href: &str,
    items_href: &str,
    base: &str,
)
    ensures
        link_views(final(links)@) == collection_links(
            link_views(old(links)@),
            self_href@,
            root_href@,
            items_href@,
            base@,
        ),
{
    let mut own: Vec<Link> = Vec::new();
    own.push(Link::new(self_href, "self"));
    own.push(Link::new(root_href, "root").mediatype("application/json"));
    own.push(Link::new(items_href, "items").mediatype(GEO_JSON));
    let ghost own_views = link_views(own@);
    insert_or_update(links, &own);
    resolve_relative_links(links, base);
    proof {
        assert(own_views =~= seq![
            LinkView { href: self_href@, rel: "self"@, media_type: None, title: None },
            LinkView { href: root_href@, rel: "root"@, media_type: Some("application/json"@), title: None },
            LinkView { href: items_href@, rel: "items"@, media_type: Some(GEO_JSON@), title: None },
        ]);
    }
}

} // verus!
