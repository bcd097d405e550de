use vstd::prelude::*;
use vstd::string::*;

use crate::crs::{append_digits, decimal_digits, digit_char};
use crate::links::{Link, LinkView};
use crate::pagination::{has_next, has_prev, paginate};
use crate::links::opt_text;
use crate::query::{comma_joined, pair_texts, texts_of, Query, QueryPlan};

verus! {

/// Media type of GeoJSON documents.
pub const GEO_JSON: &'static str = "application/geo+json";

/// Characters written as they are in a query parameter.
pub open spec fn plain_char(c: char) -> bool {
    ('a' <= c && c <= 'z') || ('A' <= c && c <= 'Z') || ('0' <= c && c <= '9') || c == '-' || c == '.'
        || c == '_' || c == '~' || c == ':' || c == '/' || c == ','
}

pub open spec fn hex_char(d: nat) -> char {
    if d < 10 {
        digit_char(d)
    } else if d == 10 {
        'A'
    } else if d == 11 {
        'B'
    } else if d == 12 {
        'C'
    } else if d == 13 {
        'D'
    } else if d == 14 {
        'E'
    } else {
        'F'
    }
}

/// `%` and the two hex digits of a byte.
pub open spec fn percent(b: nat) -> Seq<char> {
    seq!['%', hex_char(b / 16), hex_char(b % 16)]
}

/// The UTF-8 bytes of a character, each percent-encoded.
pub open spec fn percent_utf8(v: nat) -> Seq<char> {
    if v < 0x80 {
        percent(v)
    } else if v < 0x800 {
        percent(0xC0 + v / 64) + percent(0x80 + v % 64)
    } else if v < 0x10000 {
        percent(0xE0 + v / 4096) + percent(0x80 + (v / 64) % 64) + percent(0x80 + v % 64)
    } else {
        percent(0xF0 + v / 262144) + percent(0x80 + (v / 4096) % 64) + percent(0x80 + (v / 64) % 64)
            + percent(0x80 + v % 64)
    }
}

pub open spec fn escaped_char(c: char) -> Seq<char> {
    if plain_char(c) {
        seq![c]
    } else {
        percent_utf8(c as nat)
    }
}

/// A text as written in a query parameter: characters outside the plain set
/// are percent-encoded as UTF-8.
pub open spec fn escaped(s: Seq<char>) -> Seq<char>
    decreases s.len(),
{
    if s.len() == 0 {
        Seq::empty()
    } else {
        escaped(s.drop_last()) + escaped_char(s.last())
    }
}

fn hex_text(d: u32) -> (r: &'static str)
    requires
        d < 16,
    ensures
        r@ == seq![hex_char(d as nat)],
{
    match d {
        0 => { proof { reveal_strlit("0"); } "0" },
        1 => { proof { reveal_strlit("1"); } "1" },
        2 => { proof { reveal_strlit("2"); } "2" },
        3 => { proof { reveal_strlit("3"); } "3" },
        4 => { proof { reveal_strlit("4"); } "4" },
        5 => { proof { reveal_strlit("5"); } "5" },
        6 => { proof { reveal_strlit("6"); } "6" },
        7 => { proof { reveal_strlit("7"); } "7" },
        8 => { proof { reveal_strlit("8"); } "8" },
        9 => { proof { reveal_strlit("9"); } "9" },
        10 => { proof { reveal_strlit("A"); } "A" },
        11 => { proof { reveal_strlit("B"); } "B" },
        12 => { proof { reveal_strlit("C"); } "C" },
        13 => { proof { reveal_strlit("D"); } "D" },
        14 => { proof { reveal_strlit("E"); } "E" },
        _ => { proof { reveal_strlit("F"); } "F" },
    }
}

fn append_percent(out: &mut String, b: u32)
    requires
        b < 256,
    ensures
        final(out)@ == old(out)@ + percent(b as nat),
{
    out.append("%");
    proof { reveal_strlit("%"); }
    out.append(hex_text(b / 16));
    out.append(hex_text(b % 16));
    assert(final(out)@ =~= old(out)@ + percent(b as nat));
}

fn append_escaped_char(out: &mut String, c: char, piece: &str)
    requires
        piece@ == seq![c],
    ensures
        final(out)@ == old(out)@ + escaped_char(c),
{
    if ('a' <= c && c <= 'z') || ('A' <= c && c <= 'Z') || ('0' <= c && c <= '9') || c == '-' || c == '.'
        || c == '_' || c == '~' || c == ':' || c == '/' || c == ',' {
        out.append(piece);
        return;
    }
    let v = c as u32;
    if v < 0x80 {
        append_percent(out, v);
    } else if v < 0x800 {
        append_percent(out, 0xC0 + v / 64);
        append_percent(out, 0x80 + v % 64);
    } else if v < 0x10000 {
        append_percent(out, 0xE0 + v / 4096);
        append_percent(out, 0x80 + (v / 64) % 64);
        append_percent(out, 0x80 + v % 64);
    } else {
        assert(v < 0x110000);
        append_percent(out, 0xF0 + v / 262144);
        append_percent(out, 0x80 + (v / 4096) % 64);
        append_percent(out, 0x80 + (v / 64) % 64);
        append_percent(out, 0x80 + v % 64);
    }
    assert(final(out)@ =~= old(out)@ + escaped_char(c));
}

/// Appends `s` as written in a query parameter.
pub fn append_escaped(out: &mut String, s: &str)
    ensures
        final(out)@ == old(out)@ + escaped(s@),
{
    let n = s.unicode_len();
    let mut i: usize = 0;
    while i < n
        invariant
            n == s@.len(),
            i <= n,
            out@ == old(out)@ + escaped(s@.take(i as int)),
        decreases n - i,
    {
        let c = s.get_char(i);
        let piece = s.substring_char(i, i + 1);
        assert(piece@ =~= seq![c]);
        append_escaped_char(out, c, piece);
        proof {
            assert(s@.take(i + 1).drop_last() =~= s@.take(i as int));
            assert(out@ =~= old(out)@ + escaped(s@.take(i + 1)));
        }
        i = i + 1;
    }
    assert(s@.take(n as int) =~= s@);
}

/// `&key=value`, escaped, when the value is present.
pub open spec fn param_text(key: Seq<char>, v: Option<Seq<char>>) -> Seq<char> {
    match v {
        Some(t) => "&"@ + key + "="@ + escaped(t),
        None => Seq::empty(),
    }
}

/// The filter parameters, each as `&key=value`, escaped.
pub open spec fn filter_text(p: Seq<(Seq<char>, Seq<char>)>) -> Seq<char>
    decreases p.len(),
{
    if p.len() == 0 {
        Seq::empty()
    } else {
        filter_text(p.drop_last()) + "&"@ + escaped(p.last().0) + "="@ + escaped(p.last().1)
    }
}

pub open spec fn bbox_value(b: Option<Vec<String>>) -> Option<Seq<char>> {
    match b {
        Some(o) => Some(comma_joined(texts_of(o@))),
        None => None,
    }
}

/// The query string of a listing page: the served query with the page's
/// `offset`. The limit is the one served; CRS, bbox and filter parameters
/// are written as they came.
pub open spec fn page_query_text(q: Query, plan: QueryPlan, offset: u64) -> Seq<char> {
    "limit="@ + decimal_digits(plan.limit as nat) + "&offset="@ + decimal_digits(offset as nat)
        + param_text("crs"@, opt_text(q.crs)) + param_text("bbox"@, bbox_value(q.bbox))
        + param_text("bbox-crs"@, opt_text(q.bbox_crs)) + filter_text(pair_texts(q.filter@))
}

fn append_param(out: &mut String, key: &str, v: Option<&str>)
    ensures
        final(out)@ == old(out)@ + param_text(
            key@,
            match v {
                Some(t) => Some(t@),
                None => None,
            },
        ),
{
    match v {
        Some(t) => {
            out.append("&");
            out.append(key);
            out.append("=");
            append_escaped(out, t);
            assert(final(out)@ =~= old(out)@ + ("&"@ + key@ + "="@ + escaped(t@)));
        },
        None => {
            assert(old(out)@ + Seq::<char>::empty() =~= old(out)@);
        },
    }
}

/// The ordinates joined with commas.
pub fn join_ordinates(o: &Vec<String>) -> (r: String)
    ensures
        r@ == comma_joined(texts_of(o@)),
{
    let mut out = String::new();
    let mut i: usize = 0;
    while i < o.len()
        invariant
            i <= o@.len(),
            out@ == comma_joined(texts_of(o@.take(i as int))),
        decreases o@.len() - i,
    {
        if i > 0 {
            out.append(",");
            proof { reveal_strlit(","); }
        }
        out.append(o[i].as_str());
        proof {
            let t = texts_of(o@.take(i + 1));
            assert(t.drop_last() =~= texts_of(o@.take(i as int)));
            if i == 0 {
                assert(t =~= seq![o@[0]@]);
            }
        }
        i = i + 1;
    }
    assert(o@.take(i as int) =~= o@);
    out
}

fn opt_str(o: &Option<String>) -> (r: Option<&str>)
    ensures
        match r {
            Some(t) => Some(t@),
            None => None,
        } == opt_text(*o),
{
    match o {
        Some(t) => Some(t.as_str()),
        None => None,
    }
}

/// The query string of the page at `offset` of a listing.
pub fn page_query(query: &Query, plan: &QueryPlan, offset: u64) -> (r: String)
    ensures
        r@ == page_query_text(*query, *plan, offset),
{
    let mut out = String::from_str("limit=");
    append_digits(&mut out, plan.limit);
    out.append("&offset=");
    append_digits(&mut out, offset);
    append_param(&mut out, "crs", opt_str(&query.crs));
    match &query.bbox {
        Some(o) => {
            let joined = join_ordinates(o);
            append_param(&mut out, "bbox", Some(joined.as_str()));
        },
        None => {
            append_param(&mut out, "bbox", None);
        },
    }
    append_param(&mut out, "bbox-crs", opt_str(&query.bbox_crs));
    let ghost head = out@;
    let mut i: usize = 0;
    while i < query.filter.len()
        invariant
            i <= query.filter@.len(),
            out@ == head + filter_text(pair_texts(query.filter@.take(i as int))),
        decreases query.filter@.len() - i,
    {
        let ghost before = out@;
        out.append("&");
        append_escaped(&mut out, query.filter[i].0.as_str());
        out.append("=");
        append_escaped(&mut out, query.filter[i].1.as_str());
        proof {
            let t = pair_texts(query.filter@.take(i + 1));
            assert(t.drop_last() =~= pair_texts(query.filter@.take(i as int)));
            assert(out@ =~= head + filter_text(t));
        }
        i = i + 1;
    }
    assert(query.filter@.take(i as int) =~= query.filter@);
    assert(out@ =~= page_query_text(*query, *plan, offset));
    out
}

/// A link to another page of a listing: `base`, then `?` and the page's
/// query string.
pub open spec fn page_link(base: Seq<char>, q: Query, plan: QueryPlan, offset: u64, rel: Seq<char>) -> LinkView {
    LinkView {
        href: base + seq!['?'] + page_query_text(q, plan, offset),
        rel,
        media_type: Some(GEO_JSON@),
        title: None,
    }
}

/// The `prev` and `next` links of a listing window, in that order, each
/// present exactly when the neighbouring page exists.
pub open spec fn pagination_links(base: Seq<char>, q: Query, plan: QueryPlan, number_matched: u64) -> Seq<LinkView> {
    let prev = if has_prev(plan.limit as int, plan.offset as int) {
        seq![page_link(base, q, plan, (plan.offset - plan.limit) as u64, "prev"@)]
    } else {
        Seq::empty()
    };
    let next = if has_next(plan.limit as int, plan.offset as int, number_matched as int) {
        seq![page_link(base, q, plan, (plan.offset + plan.limit) as u64, "next"@)]
    } else {
        Seq::empty()
    };
    prev + next
}

fn make_page_link(base: &str, query: &Query, plan: &QueryPlan, offset: u64, rel: &str) -> (r: Link)
    ensures
        r@ == page_link(base@, *query, *plan, offset, rel@),
{
    let mut href = String::from_str(base);
    href.append("?");
    proof { reveal_strlit("?"); }
    let q = page_query(query, plan, offset);
    href.append(q.as_str());
    assert(href@ =~= base@ + seq!['?'] + page_query_text(*query, *plan, offset));
    Link::new(href.as_str(), rel).mediatype(GEO_JSON)
}

/// The `prev` and `next` links of the window of `plan`, when `number_matched`
/// rows satisfy its predicate; `base` is the listing's URL without query.
pub fn page_links(base: &str, query: &Query, plan: &QueryPlan, number_matched: u64) -> (r: Vec<Link>)
    ensures
        r@.map_values(|l: Link| l@) == pagination_links(base@, *query, *plan, number_matched),
{
    let pages = paginate(plan.limit, plan.offset, number_matched);
    let mut links: Vec<Link> = Vec::new();
    if let Some(prev) = pages.prev {
        links.push(make_page_link(base, query, plan, prev, "prev"));
    }
    if let Some(next) = pages.next {
        links.push(make_page_link(base, query, plan, next, "next"));
    }
    assert(links@.map_values(|l: Link| l@) =~= pagination_links(base@, *query, *plan, number_matched));
    links
}

} // verus!
