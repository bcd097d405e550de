use vstd::prelude::*;
use vstd::string::*;


verus! {

/// A hypermedia link: relation, target, media type and optional title.
#[derive(Debug)]
pub struct Link {
    pub href: String,
    pub rel: String,
    pub media_type: Option<String>,
    pub title: Option<String>,
}

/// The mathematical value of a link.
pub struct LinkView {
    pub href: Seq<char>,
    pub rel: Seq<char>,
    pub media_type: Option<Seq<char>>,
    pub title: Option<Seq<char>>,
}

pub open spec fn opt_text(o: Option<String>) -> Option<Seq<char>> {
    match o {
        Some(s) => Some(s@),
        None => None,
    }
}

impl View for Link {
    type V = LinkView;

    open spec fn view(&self) -> LinkView {
        LinkView {
            href: self.href@,
            rel: self.rel@,
            media_type: opt_text(self.media_type),
            title: opt_text(self.title),
        }
    }
}

/// A copy of an optional text with the same value.
pub fn copy_text(o: &Option<String>) -> (r: Option<String>)
    ensures
        opt_text(r) == opt_text(*o),
{
    match o {
        Some(s) => Some(s.clone()),
        None => None,
    }
}

impl Link {
    /// A link to `href` with relation `rel`, no media type and no title.
    pub fn new(href: &str, rel: &str) -> (r: Link)
        ensures
            r@ == (LinkView { href: href@, rel: rel@, media_type: None, title: None }),
    {
        Link { href: String::from_str(href), rel: String::from_str(rel), media_type: None, title: None }
    }

    /// The same link with its media type set.
    pub fn mediatype(self, media_type: &str) -> (r: Link)
        ensures
            r@ == (LinkView { media_type: Some(media_type@), ..self@ }),
    {
        Link { media_type: Some(String::from_str(media_type)), ..self }
    }

    /// The same link with its title set.
    pub fn title(self, title: &str) -> (r: Link)
        ensures
            r@ == (LinkView { title: Some(title@), ..self@ }),
    {
        Link { title: Some(String::from_str(title)), ..self }
    }

    /// A copy of the link with the same value.
    pub fn duplicate(&self) -> (r: Link)
        ensures
            r@ == self@,
    {
        Link {
            href: self.href.clone(),
            rel: self.rel.clone(),
            media_type: copy_text(&self.media_type),
            title: copy_text(&self.title),
        }
    }
}

/// What identifies a link within a list: its relation and media type.
pub type LinkKey = (Seq<char>, Option<Seq<char>>);

impl LinkView {
    pub open spec fn key(self) -> LinkKey {
        (self.rel, self.media_type)
    }
}

/// Whether two optional texts are equal.
pub fn same_text(a: &Option<String>, b: &Option<String>) -> (r: bool)
    ensures
        r == (opt_text(*a) == opt_text(*b)),
{
    match a {
        Some(x) => match b {
            Some(y) => {
                let e = *x == *y;
                proof {
                    if x@ == y@ {
                        assert(opt_text(*a) == opt_text(*b));
                    }
                }
                e
            },
            None => false,
        },
        None => b.is_none(),
    }
}

pub open spec fn link_views(s: Seq<Link>) -> Seq<LinkView> {
    s.map_values(|l: Link| l@)
}

pub open spec fn has_key(s: Seq<LinkView>, key: LinkKey) -> bool {
    exists|i: int| 0 <= i < s.len() && (#[trigger] s[i]).key() == key
}

/// `i` is the first position of a link with identity `key`.
pub open spec fn first_with_key(s: Seq<LinkView>, key: LinkKey, i: int) -> bool {
    &&& 0 <= i < s.len()
    &&& s[i].key() == key
    &&& forall|j: int| 0 <= j < i ==> (#[trigger] s[j]).key() != key
}

/// Inserting one link: it replaces the first link with its relation and
/// media type, or is appended when no link has both.
pub open spec fn upsert(s: Seq<LinkView>, l: LinkView) -> Seq<LinkView> {
    if has_key(s, l.key()) {
        s.update(choose|i: int| first_with_key(s, l.key(), i), l)
    } else {
        s.push(l)
    }
}

/// Inserting a batch of links one after the other.
pub open spec fn upsert_all(s: Seq<LinkView>, news: Seq<LinkView>) -> Seq<LinkView>
    decreases news.len(),
{
    if news.len() == 0 {
        s
    } else {
        upsert(upsert_all(s, news.drop_last()), news.last())
    }
}

/// No two links share both relation and media type.
pub open spec fn keys_unique(s: Seq<LinkView>) -> bool {
    forall|i: int, j: int| 0 <= i < s.len() && 0 <= j < s.len() && i != j ==> (#[trigger] s[i]).key() != (#[trigger] s[j]).key()
}

/// Inserts `link`, replacing the first link with its relation and media type.
pub fn insert_or_update_one(links: &mut Vec<Link>, link: Link)
    ensures
        link_views(final(links)@) == upsert(link_views(old(links)@), link@),
{
    let ghost s = link_views(links@);
    let n = links.len();
    let mut i: usize = 0;
    while i < n
        invariant
            n == links@.len(),
            s == link_views(links@),
            links@ == old(links)@,
            i <= n,
            forall|j: int| 0 <= j < i ==> (#[trigger] s[j]).key() != link@.key(),
        decreases n - i,
    {
        if links[i].rel == link.rel && same_text(&links[i].media_type, &link.media_type) {
            proof {
                assert(first_with_key(s, link@.key(), i as int));
                assert(has_key(s, link@.key()));
                let k = choose|k: int| first_with_key(s, link@.key(), k);
                assert(k == i);
                assert(upsert(s, link@) == s.update(i as int, link@));
            }
            links.set(i, link);
            proof {
                assert(link_views(links@) =~= s.update(i as int, link@));
            }
            return;
        }
        i = i + 1;
    }
    proof {
        assert(!has_key(s, link@.key()));
    }
    links.push(link);
    assert(link_views(links@) =~= s.push(link@));
}

/// Merges `new_links` into `links` by relation and media type: each new link
/// replaces the first existing link with the same pair, or is appended.
pub fn insert_or_update(links: &mut Vec<Link>, new_links: &Vec<Link>)
    ensures
        link_views(final(links)@) == upsert_all(link_views(old(links)@), link_views(new_links@)),
{
    let ghost s0 = link_views(links@);
    let ghost news = link_views(new_links@);
    let mut k: usize = 0;
    while k < new_links.len()
        invariant
            k <= new_links@.len(),
            news == link_views(new_links@),
            link_views(links@) == upsert_all(s0, news.take(k as int)),
        decreases new_links@.len() - k,
    {
        let l = new_links[k].duplicate();
        insert_or_update_one(links, l);
        proof {
            assert(news.take(k + 1).drop_last() =~= news.take(k as int));
        }
        k = k + 1;
    }
    assert(news.take(k as int) =~= news);
}

proof fn lemma_upsert_keeps(s: Seq<LinkView>, l: LinkView)
    ensures
        has_key(upsert(s, l), l.key()),
        forall|r: LinkKey| has_key(s, r) ==> has_key(upsert(s, l), r),
        has_key(s, l.key()) ==> upsert(s, l).len() == s.len(),
        keys_unique(s) ==> keys_unique(upsert(s, l)),
{
    let t = upsert(s, l);
    if has_key(s, l.key()) {
        let k = choose|i: int| first_with_key(s, l.key(), i);
        assert(first_with_key(s, l.key(), k)) by {
            let i0 = choose|i: int| 0 <= i < s.len() && (#[trigger] s[i]).key() == l.key();
            lemma_first_exists(s, l.key(), i0);
        }
        assert(t[k].key() == l.key());
        assert forall|r: LinkKey| has_key(s, r) implies has_key(t, r) by {
            let i = choose|i: int| 0 <= i < s.len() && (#[trigger] s[i]).key() == r;
            assert(t[i].key() == r);
        }
    } else {
        assert(t[s.len() as int].key() == l.key());
        assert forall|r: LinkKey| has_key(s, r) implies has_key(t, r) by {
            let i = choose|i: int| 0 <= i < s.len() && (#[trigger] s[i]).key() == r;
            assert(t[i].key() == r);
        }
    }
}

proof fn lemma_first_exists(s: Seq<LinkView>, key: LinkKey, i: int)
    requires
        0 <= i < s.len(),
        s[i].key() == key,
    ensures
        exists|k: int| first_with_key(s, key, k),
    decreases i,
{
    if exists|j: int| 0 <= j < i && (#[trigger] s[j]).key() == key {
        let j = choose|j: int| 0 <= j < i && (#[trigger] s[j]).key() == key;
        lemma_first_exists(s, key, j);
    } else {
        assert(first_with_key(s, key, i));
    }
}

proof fn lemma_upsert_all_keeps(s: Seq<LinkView>, news: Seq<LinkView>)
    ensures
        forall|r: LinkKey| has_key(s, r) ==> has_key(upsert_all(s, news), r),
        forall|i: int| 0 <= i < news.len() ==> has_key(upsert_all(s, news), #[trigger] news[i].key()),
        keys_unique(s) ==> keys_unique(upsert_all(s, news)),
    decreases news.len(),
{
    if news.len() > 0 {
        let prev = upsert_all(s, news.drop_last());
        lemma_upsert_all_keeps(s, news.drop_last());
        lemma_upsert_keeps(prev, news.last());
        assert forall|i: int| 0 <= i < news.len() implies has_key(upsert_all(s, news), #[trigger] news[i].key()) by {
            if i < news.len() - 1 {
                assert(news.drop_last()[i] == news[i]);
            }
        }
    }
}

proof fn lemma_upsert_all_present(t: Seq<LinkView>, news: Seq<LinkView>)
    requires
        forall|i: int| 0 <= i < news.len() ==> has_key(t, #[trigger] news[i].key()),
    ensures
        upsert_all(t, news).len() == t.len(),
    decreases news.len(),
{
    if news.len() > 0 {
        assert forall|i: int| 0 <= i < news.drop_last().len() implies has_key(t, #[trigger] news.drop_last()[i].key()) by {
            assert(news.drop_last()[i] == news[i]);
        }
        lemma_upsert_all_present(t, news.drop_last());
        lemma_upsert_all_keeps(t, news.drop_last());
        assert(has_key(t, news[news.len() - 1].key()));
        lemma_upsert_keeps(upsert_all(t, news.drop_last()), news.last());
    }
}

/// Merging the same batch twice leaves no duplicate (relation, media type)
/// pair where there was none, and gives a list of the same size as merging it once.
pub proof fn lemma_insert_or_update_idempotent_size(s: Seq<LinkView>, news: Seq<LinkView>)
    requires
        keys_unique(s),
    ensures
        keys_unique(upsert_all(s, news)),
        keys_unique(upsert_all(upsert_all(s, news), news)),
        upsert_all(upsert_all(s, news), news).len() == upsert_all(s, news).len(),
{
    let t = upsert_all(s, news);
    lemma_upsert_all_keeps(s, news);
    lemma_upsert_all_keeps(t, news);
    lemma_upsert_all_present(t, news);
}

/// The last link of `news` with identity `key`.
pub open spec fn last_with_key(news: Seq<LinkView>, key: LinkKey) -> LinkView
    decreases news.len(),
{
    if news.len() == 0 {
        arbitrary()
    } else if news.last().key() == key {
        news.last()
    } else {
        last_with_key(news.drop_last(), key)
    }
}

proof fn lemma_upsert_shape(s: Seq<LinkView>, l: LinkView)
    requires
        keys_unique(s),
    ensures
        upsert(s, l).len() >= s.len(),
        forall|i: int| 0 <= i < s.len() ==> (#[trigger] upsert(s, l)[i]).key() == s[i].key(),
        forall|i: int| 0 <= i < s.len() && s[i].key() != l.key() ==> #[trigger] upsert(s, l)[i] == s[i],
        forall|i: int| 0 <= i < upsert(s, l).len() && (#[trigger] upsert(s, l)[i]).key() == l.key() ==> upsert(s, l)[i] == l,
        forall|i: int| s.len() <= i < upsert(s, l).len() ==> (#[trigger] upsert(s, l)[i]) == l,
{
    if has_key(s, l.key()) {
        let i0 = choose|i: int| 0 <= i < s.len() && (#[trigger] s[i]).key() == l.key();
        lemma_first_exists(s, l.key(), i0);
        let k = choose|i: int| first_with_key(s, l.key(), i);
        assert forall|i: int| 0 <= i < upsert(s, l).len() && (#[trigger] upsert(s, l)[i]).key() == l.key() implies upsert(s, l)[i] == l by {
            if i != k {
                assert(s[i].key() == l.key() && s[k].key() == l.key());
            }
        }
    }
}

proof fn lemma_upsert_all_shape(u: Seq<LinkView>, news: Seq<LinkView>)
    requires
        keys_unique(u),
    ensures
        upsert_all(u, news).len() >= u.len(),
        forall|i: int| 0 <= i < u.len() ==> (#[trigger] upsert_all(u, news)[i]).key() == u[i].key(),
        forall|i: int| 0 <= i < u.len() && !has_key(news, u[i].key()) ==> #[trigger] upsert_all(u, news)[i] == u[i],
        forall|i: int|
            0 <= i < upsert_all(u, news).len() && has_key(news, (#[trigger] upsert_all(u, news)[i]).key())
                ==> upsert_all(u, news)[i] == last_with_key(news, upsert_all(u, news)[i].key()),
    decreases news.len(),
{
    if news.len() > 0 {
        let d = news.drop_last();
        let l = news.last();
        let w = upsert_all(u, d);
        let t = upsert_all(u, news);
        lemma_upsert_all_shape(u, d);
        lemma_upsert_all_keeps(u, d);
        lemma_upsert_shape(w, l);
        assert forall|i: int| 0 <= i < u.len() && !has_key(news, u[i].key()) implies #[trigger] t[i] == u[i] by {
            if has_key(d, u[i].key()) {
                let j = choose|j: int| 0 <= j < d.len() && (#[trigger] d[j]).key() == u[i].key();
                assert(news[j] == d[j]);
            }
            assert(news[news.len() - 1] == l);
        }
        assert forall|i: int| 0 <= i < t.len() && has_key(news, (#[trigger] t[i]).key()) implies t[i] == last_with_key(news, t[i].key()) by {
            let r = t[i].key();
            if r != l.key() {
                let j = choose|j: int| 0 <= j < news.len() && (#[trigger] news[j]).key() == r;
                assert(j != news.len() - 1);
                assert(d[j] == news[j]);
                assert(has_key(d, r));
                assert(i < w.len());
                assert(w[i].key() == r);
            }
        }
    } else {
        assert forall|i: int| 0 <= i < upsert_all(u, news).len() implies !has_key(news, (#[trigger] upsert_all(u, news)[i]).key()) by {}
    }
}

/// Merging the same batch twice gives the same list as merging it once,
/// where the list had no duplicate (relation, media type) pair.
pub proof fn lemma_insert_or_update_idempotent(s: Seq<LinkView>, news: Seq<LinkView>)
    requires
        keys_unique(s),
    ensures
        upsert_all(upsert_all(s, news), news) == upsert_all(s, news),
{
    let t = upsert_all(s, news);
    let t2 = upsert_all(t, news);
    lemma_insert_or_update_idempotent_size(s, news);
    lemma_upsert_all_shape(s, news);
    lemma_upsert_all_shape(t, news);
    assert forall|i: int| 0 <= i < t.len() implies #[trigger] t2[i] == t[i] by {
        if has_key(news, t[i].key()) {
            assert(t2[i].key() == t[i].key());
        }
    }
    assert(t2 =~= t);
}

pub open spec fn is_letter(c: char) -> bool {
    ('a' <= c && c <= 'z') || ('A' <= c && c <= 'Z')
}

pub open spec fn scheme_char(c: char) -> bool {
    is_letter(c) || ('0' <= c && c <= '9') || c == '+' || c == '-' || c == '.'
}

/// `href` begins with a URI scheme ending at position `k`: a letter, then
/// letters, digits, `+`, `-` or `.`, then `:`.
pub open spec fn scheme_ends_at(href: Seq<char>, k: int) -> bool {
    &&& 1 <= k < href.len()
    &&& href[k] == ':'
    &&& is_letter(href[0])
    &&& forall|j: int| 1 <= j < k ==> scheme_char(#[trigger] href[j])
}

/// An href that begins with a URI scheme is absolute.
pub open spec fn is_absolute(href: Seq<char>) -> bool {
    exists|k: int| scheme_ends_at(href, k)
}

/// Whether `href` begins with a URI scheme.
pub fn has_scheme(href: &str) -> (r: bool)
    ensures
        r == is_absolute(href@),
{
    let n = href.unicode_len();
    if n == 0 {
        return false;
    }
    let c0 = href.get_char(0);
    if !(('a' <= c0 && c0 <= 'z') || ('A' <= c0 && c0 <= 'Z')) {
        return false;
    }
    let mut i: usize = 1;
    while i < n
        invariant
            n == href@.len(),
            1 <= i <= n,
            is_letter(href@[0]),
            forall|j: int| 1 <= j < i ==> scheme_char(#[trigger] href@[j]),
        decreases n - i,
    {
        let c = href.get_char(i);
        if c == ':' {
            assert(scheme_ends_at(href@, i as int));
            return true;
        }
        if !(('a' <= c && c <= 'z') || ('A' <= c && c <= 'Z') || ('0' <= c && c <= '9') || c == '+' || c == '-' || c == '.') {
            proof {
                assert forall|k: int| !scheme_ends_at(href@, k) by {
                    if 1 <= k < href@.len() && href@[k] == ':' {
                        if k > i {
                            assert(!scheme_char(href@[i as int]));
                        } else if k < i {
                            assert(scheme_char(href@[k]));
                        }
                    }
                }
            }
            return false;
        }
        i = i + 1;
    }
    proof {
        assert forall|k: int| !scheme_ends_at(href@, k) by {
            if 1 <= k < href@.len() {
                assert(scheme_char(href@[k]));
            }
        }
    }
    false
}

/// The URL that `href` names relative to `base`, as the `url` crate
/// resolves it (RFC 3986), when `base` parses as a URL and the reference
/// resolves.
pub uninterp spec fn url_joined(base: Seq<char>, href: Seq<char>) -> Option<Seq<char>>;

/// Relies on url's `Url::parse` (for the base) and `Url::join`: the reference
/// resolved against the base, or none when either fails. The result depends
/// on the two texts alone.
#[verifier::external_body]
fn join_url(base: &str, href: &str) -> (r: Option<String>)
    ensures
        opt_text(r) == url_joined(base@, href@),
{
    match url::Url::parse(base) {
        Ok(b) => match b.join(href) {
            Ok(u) => Some(u.to_string()),
            Err(_) => None,
        },
        Err(_) => None,
    }
}

/// The href a link is served with, given what resolving it against the base
/// gave: absolute hrefs are kept, relative ones take the resolved URL, and
/// stay as they are when it could not be resolved.
pub open spec fn served_href(href: Seq<char>, joined: Option<Seq<char>>) -> Seq<char> {
    if is_absolute(href) {
        href
    } else {
        match joined {
            Some(u) => u,
            None => href,
        }
    }
}

pub open spec fn resolved(l: LinkView, base: Seq<char>) -> LinkView {
    LinkView { href: served_href(l.href, url_joined(base, l.href)), ..l }
}

/// The href a link is served with, from the result of resolving it.
pub fn choose_href(href: &str, joined: Option<String>) -> (r: String)
    ensures
        r@ == served_href(href@, opt_text(joined)),
{
    if has_scheme(href) {
        return String::from_str(href);
    }
    match joined {
        Some(u) => u,
        None => String::from_str(href),
    }
}

/// Resolves `href` against `base`; absolute hrefs are kept.
pub fn resolve_href(base: &str, href: &str) -> (r: String)
    ensures
        r@ == served_href(href@, url_joined(base@, href@)),
{
    if has_scheme(href) {
        return String::from_str(href);
    }
    let joined = join_url(base, href);
    choose_href(href, joined)
}

/// Rewrites every relative href of `links` to the URL it names relative to
/// `base`; absolute hrefs, relations, media types and titles are kept.
pub fn resolve_relative_links(links: &mut Vec<Link>, base: &str)
    ensures
        link_views(final(links)@) == link_views(old(links)@).map_values(|l: LinkView| resolved(l, base@)),
{
    let ghost s = link_views(links@);
    let n = links.len();
    let mut i: usize = 0;
    while i < n
        invariant
            n == links@.len(),
            n == s.len(),
            s == link_views(old(links)@),
            i <= n,
            forall|j: int| 0 <= j < i ==> (#[trigger] links@[j])@ == resolved(s[j], base@),
            forall|j: int| i <= j < n ==> (#[trigger] links@[j])@ == s[j],
        decreases n - i,
    {
        let href = resolve_href(base, links[i].href.as_str());
        let l = Link {
            href,
            rel: links[i].rel.clone(),
            media_type: copy_text(&links[i].media_type),
            title: copy_text(&links[i].title),
        };
        links.set(i, l);
        i = i + 1;
    }
    assert(link_views(links@) =~= s.map_values(|l: LinkView| resolved(l, base@)));
}

} // verus!
