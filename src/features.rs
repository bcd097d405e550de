use vstd::prelude::*;
use vstd::string::*;

use crate::links::{insert_or_update, opt_text, link_views, resolve_relative_links, resolved, upsert_all, Link, LinkView};
use crate::listing::{page_links, pagination_links, GEO_JSON};
use crate::query::{Query, QueryPlan};

verus! {

/// The GeoJSON object type of a feature.
#[derive(Debug, Clone, Copy, PartialEq, Eq, Structural)]
pub enum FeatureType {
    Feature,
}

/// The role an asset plays for its item.
#[derive(Debug, Clone, Copy, PartialEq, Eq, Structural)]
pub enum AssetRole {
    Thumbnail,
    Overview,
    Data,
    Metadata,
}

/// A resource associated with an item that can be downloaded or streamed.
#[derive(Debug)]
pub struct Asset {
    pub href: String,
    pub title: String,
    pub description: String,
    pub content_type: String,
    pub roles: Vec<AssetRole>,
}

/// Assets of an item, each under a unique key. They are held as a list of
/// entries with distinct keys: Verus models hash maps only for primitive keys.
#[derive(Debug)]
pub struct Assets {
    inner: Vec<(String, Asset)>,
}

impl Assets {
    pub closed spec fn keys(&self) -> Seq<Seq<char>> {
        self.inner@.map_values(|e: (String, Asset)| e.0@)
    }

    pub closed spec fn values(&self) -> Seq<Asset> {
        self.inner@.map_values(|e: (String, Asset)| e.1)
    }

    /// No key occurs twice.
    pub closed spec fn wf(&self) -> bool {
        forall|i: int, j: int|
            0 <= i < self.inner@.len() && 0 <= j < self.inner@.len() && i != j ==> (
            #[trigger] self.inner@[i]).0@ != (#[trigger] self.inner@[j]).0@
    }

    pub fn new() -> (r: Assets)
        ensures
            r.wf(),
            r.keys().len() == 0,
            r.values().len() == 0,
    {
        Assets { inner: Vec::new() }
    }

    pub fn len(&self) -> (r: usize)
        ensures
            r == self.keys().len(),
    {
        self.inner.len()
    }

    /// The key and asset of entry `i`.
    pub fn entry(&self, i: usize) -> (r: (&String, &Asset))
        requires
            i < self.keys().len(),
        ensures
            r.0@ == self.keys()[i as int],
            *r.1 == self.values()[i as int],
    {
        (&self.inner[i].0, &self.inner[i].1)
    }

    /// Position of the asset stored under `key`, if any.
    pub fn position(&self, key: &str) -> (r: Option<usize>)
        ensures
            match r {
                Some(i) => i < self.keys().len() && self.keys()[i as int] == key@,
                None => !self.keys().contains(key@),
            },
    {
        let wanted = String::from_str(key);
        let mut i: usize = 0;
        while i < self.inner.len()
            invariant
                i <= self.inner@.len(),
                wanted@ == key@,
                forall|k: int| 0 <= k < i ==> (#[trigger] self.inner@[k]).0@ != key@,
            decreases self.inner@.len() - i,
        {
            if self.inner[i].0 == wanted {
                return Some(i);
            }
            i = i + 1;
        }
        proof {
            if self.keys().contains(key@) {
                let k = choose|k: int| 0 <= k < self.keys().len() && self.keys()[k] == key@;
                assert(self.inner@[k].0@ == key@);
            }
        }
        None
    }

    /// Stores `asset` under `key`, replacing an asset stored under it.
    pub fn insert(&mut self, key: String, asset: Asset)
        requires
            old(self).wf(),
        ensures
            final(self).wf(),
            final(self).keys().contains(key@),
            old(self).keys().contains(key@) ==> final(self).keys() == old(self).keys(),
            !old(self).keys().contains(key@) ==> final(self).keys() == old(self).keys().push(key@),
            final(self).values().len() == final(self).keys().len(),
            forall|i: int| 0 <= i < final(self).keys().len() && final(self).keys()[i] == key@
                ==> #[trigger] final(self).values()[i] == asset,
            forall|i: int| 0 <= i < old(self).keys().len() && old(self).keys()[i] != key@
                ==> #[trigger] final(self).values()[i] == old(self).values()[i],
    {
        let ghost k0 = key@;
        match self.position(key.as_str()) {
            Some(i) => {
                let ghost a0 = asset;
                self.inner.set(i, (key, asset));
                assert(self.keys() =~= old(self).keys());
                assert(self.keys()[i as int] == k0);
                assert(self.values() =~= old(self).values().update(i as int, a0));
                assert forall|j: int| 0 <= j < self.keys().len() && self.keys()[j] == k0
                    implies #[trigger] self.values()[j] == a0 by {
                    if j != i {
                        assert(old(self).inner@[j].0@ == old(self).inner@[i as int].0@);
                    }
                }
            },
            None => {
                let ghost a0 = asset;
                self.inner.push((key, asset));
                assert(self.keys() =~= old(self).keys().push(k0));
                assert(self.values() =~= old(self).values().push(a0));
                assert forall|j: int| 0 <= j < self.keys().len() && self.keys()[j] == k0
                    implies #[trigger] self.values()[j] == a0 by {
                    if j < old(self).keys().len() {
                        assert(old(self).keys()[j] == k0);
                    }
                }
                assert(self.keys()[self.keys().len() - 1] == k0);
                assert forall|i: int, j: int|
                    0 <= i < self.inner@.len() && 0 <= j < self.inner@.len() && i != j implies (
                    #[trigger] self.inner@[i]).0@ != (#[trigger] self.inner@[j]).0@ by {
                    if i < old(self).inner@.len() && j < old(self).inner@.len() {
                        assert(self.inner@[i] == old(self).inner@[i]);
                        assert(self.inner@[j] == old(self).inner@[j]);
                    } else if i < old(self).inner@.len() {
                        assert(old(self).keys()[i] == self.inner@[i].0@);
                    } else {
                        assert(old(self).keys()[j] == self.inner@[j].0@);
                    }
                }
            },
        }
    }
}

/// A feature: geometry and attributes, held as GeoJSON and JSON text, and
/// any further members of its document as the text of a JSON object.
#[derive(Debug)]
pub struct Feature {
    pub id: Option<String>,
    pub collection: Option<String>,
    pub feature_type: FeatureType,
    pub properties: Option<String>,
    pub geometry: String,
    pub links: Vec<Link>,
    pub assets: Assets,
    pub extra: Option<String>,
}

/// A page of a listing.
#[derive(Debug)]
pub struct FeatureCollection {
    pub features: Vec<Feature>,
    pub links: Vec<Link>,
    pub number_matched: Option<u64>,
    pub number_returned: Option<usize>,
    pub time_stamp: Option<String>,
}

impl FeatureCollection {
    /// A listing page of `features`, with no links and no matched count.
    pub fn new(features: Vec<Feature>) -> (r: FeatureCollection)
        ensures
            r.features@ == features@,
            r.links@.len() == 0,
            r.number_matched.is_none(),
            r.time_stamp.is_none(),
            r.number_returned == Some(features@.len() as usize),
    {
        let n = features.len();
        FeatureCollection {
            features,
            links: Vec::new(),
            number_matched: None,
            number_returned: Some(n),
            time_stamp: None,
        }
    }
}

/// The links of a listing document: `self`, `root` and `collection` merged
/// into the stored links, then the page links merged in.
pub open spec fn listing_links(
    stored: Seq<LinkView>,
    self_href: Seq<char>,
    root_href: Seq<char>,
    collection_href: Seq<char>,
    base: Seq<char>,
    q: Query,
    plan: QueryPlan,
    number_matched: u64,
) -> Seq<LinkView> {
    let own = seq![
        LinkView { href: self_href, rel: "self"@, media_type: Some(GEO_JSON@), title: None },
        LinkView { href: root_href, rel: "root"@, media_type: Some("application/json"@), title: None },
        LinkView { href: collection_href, rel: "collection"@, media_type: Some("application/json"@), title: None },
    ];
    upsert_all(upsert_all(stored, own), pagination_links(base, q, plan, number_matched))
}

/// Completes a listing page: sets the matched and returned counts and the
/// time stamp, and adds the resource's own links and its `prev`/`next` links.
pub fn finish_listing(
    fc: &mut FeatureCollection,
    time_stamp: String,
    number_matched: u64,
    self_href: &str,
    root_href: &str,
    collection_href: &str,
    base: &str,
    query: &Query,
    plan: &QueryPlan,
)
    ensures
        final(fc).features@ == old(fc).features@,
        final(fc).number_matched == Some(number_matched),
        final(fc).number_returned == Some(old(fc).features@.len() as usize),
        opt_text(final(fc).time_stamp) == Some(time_stamp@),
        link_views(final(fc).links@) == listing_links(
            link_views(old(fc).links@),
            self_href@,
            root_href@,
            collection_href@,
            base@,
            *query,
            *plan,
            number_matched,
        ),
{
    fc.number_matched = Some(number_matched);
    fc.number_returned = Some(fc.features.len());
    fc.time_stamp = Some(time_stamp);
    let mut own: Vec<Link> = Vec::new();
    own.push(Link::new(self_href, "self").mediatype(GEO_JSON));
    own.push(Link::new(root_href, "root").mediatype("application/json"));
    own.push(Link::new(collection_href, "collection").mediatype("application/json"));
    let ghost own_views = link_views(own@);
    insert_or_update(&mut fc.links, &own);
    let pages = page_links(base, query, plan, number_matched);
    insert_or_update(&mut fc.links, &pages);
    proof {
        assert(own_views =~= seq![
            LinkView { href: self_href@, rel: "self"@, media_type: Some(GEO_JSON@), title: None },
            LinkView { href: root_href@, rel: "root"@, media_type: Some("application/json"@), title: None },
            LinkView { href: collection_href@, rel: "collection"@, media_type: Some("application/json"@), title: None },
        ]);
        assert(link_views(pages@) == pages@.map_values(|l: Link| l@));
    }
}

impl Feature {
    /// Binds the feature to `collection` before it is created there; the
    /// storage assigns its id.
    pub fn assign_collection(&mut self, collection: &str)
        ensures
            opt_text(final(self).collection) == Some(collection@),
            opt_text(final(self).id) == opt_text(old(self).id),
            opt_text(final(self).properties) == opt_text(old(self).properties),
            final(self).geometry@ == old(self).geometry@,
            final(self).links@ == old(self).links@,
            final(self).feature_type == old(self).feature_type,
            final(self).assets == old(self).assets,
            opt_text(final(self).extra) == opt_text(old(self).extra),
    {
        self.collection = Some(String::from_str(collection));
    }

    /// Binds the feature to the id and collection it replaces on update.
    pub fn assign_identity(&mut self, collection: &str, id: &str)
        ensures
            opt_text(final(self).collection) == Some(collection@),
            opt_text(final(self).id) == Some(id@),
            opt_text(final(self).properties) == opt_text(old(self).properties),
            final(self).geometry@ == old(self).geometry@,
            final(self).links@ == old(self).links@,
            final(self).feature_type == old(self).feature_type,
            final(self).assets == old(self).assets,
            opt_text(final(self).extra) == opt_text(old(self).extra),
    {
        self.collection = Some(String::from_str(collection));
        self.id = Some(String::from_str(id));
    }
}

/// The links of a feature as served: `self`, `root` and `collection` merged
/// into its stored links, then relative hrefs anchored at `base`.
pub open spec fn feature_links(
    stored: Seq<LinkView>,
    self_href: Seq<char>,
    root_href: Seq<char>,
    collection_href: Seq<char>,
    base: Seq<char>,
) -> Seq<LinkView> {
    let own = seq![
        LinkView { href: self_href, rel: "self"@, media_type: Some(GEO_JSON@), title: None },
        LinkView { href: root_href, rel: "root"@, media_type: Some("application/json"@), title: None },
        LinkView { href: collection_href, rel: "collection"@, media_type: Some("application/json"@), title: None },
    ];
    upsert_all(stored, own).map_values(|l: LinkView| resolved(l, base))
}

/// Completes a feature read from storage with its own links.
pub fn finish_feature(
    feature: &mut Feature,
    self_href: &str,
    root_href: &str,
    collection_href: &str,
    base: &str,
)
    ensures
        link_views(final(feature).links@) == feature_links(
            link_views(old(feature).links@),
            self_href@,
            root_href@,
            collection_href@,
            base@,
        ),
        opt_text(final(feature).id) == opt_text(old(feature).id),
        opt_text(final(feature).collection) == opt_text(old(feature).collection),
        final(feature).geometry@ == old(feature).geometry@,
{
    let mut own: Vec<Link> = Vec::new();
    own.push(Link::new(self_href, "self").mediatype(GEO_JSON));
    own.push(Link::new(root_href, "root").mediatype("application/json"));
    own.push(Link::new(collection_href, "collection").mediatype("application/json"));
    let ghost own_views = link_views(own@);
    insert_or_update(&mut feature.links, &own);
    resolve_relative_links(&mut feature.links, base);
    proof {
        assert(own_views =~= seq![
            LinkView { href: self_href@, rel: "self"@, media_type: Some(GEO_JSON@), title: None },
            LinkView { href: root_href@, rel: "root"@, media_type: Some("application/json"@), title: None },
            LinkView { href: collection_href@, rel: "collection"@, media_type: Some("application/json"@), title: None },
        ]);
    }
}

} // verus!
