use vstd::prelude::*;
use vstd::string::*;

use crate::crs::{decimal_up_to, parse_decimal_from, parse_srid, resolve_srid, resolved_srid, srid_of, starts_with, DEFAULT_SRID};
use crate::links::opt_text;

verus! {

/// Page size used when a query names none.
pub const DEFAULT_LIMIT: u64 = 100;

/// Largest page size served.
pub const MAX_LIMIT: u64 = 10000;

/// Why a query cannot be turned into a storage plan.
#[derive(Debug, Clone, Copy, PartialEq, Eq, Structural)]
pub enum QueryError {
    /// The output CRS is not among the collection's supported CRSs.
    UnsupportedCrs,
    /// The bbox has neither 4 nor 6 ordinates, or one is not a number.
    InvalidBbox,
    /// The output CRS identifier names no SRID.
    InvalidCrsIdentifier,
    /// `limit` or `offset` is not a whole number in range.
    InvalidParameter,
}

/// The page size served for a requested one: clamped to `1..=MAX_LIMIT`,
/// `DEFAULT_LIMIT` when absent.
pub open spec fn clamped_limit(requested: Option<u64>) -> u64 {
    match requested {
        None => DEFAULT_LIMIT,
        Some(l) => if l > MAX_LIMIT {
            MAX_LIMIT
        } else if l < 1 {
            1
        } else {
            l
        },
    }
}

/// The page size served for a requested one.
pub fn clamp_limit(requested: Option<u64>) -> (r: u64)
    ensures
        r == clamped_limit(requested),
        1 <= r <= MAX_LIMIT,
{
    match requested {
        None => DEFAULT_LIMIT,
        Some(l) => if l > MAX_LIMIT {
            MAX_LIMIT
        } else if l < 1 {
            1
        } else {
            l
        },
    }
}

pub open spec fn is_sign(c: char) -> bool {
    c == '-' || c == '+'
}

/// The text of a number without its sign: digits with at most one `.`,
/// neither first nor last.
pub open spec fn unsigned_number(s: Seq<char>) -> bool {
    &&& s.len() > 0
    &&& s[0] != '.'
    &&& s.last() != '.'
    &&& forall|i: int| 0 <= i < s.len() ==> ('0' <= #[trigger] s[i] <= '9' || s[i] == '.')
    &&& forall|i: int, j: int|
        #![trigger s[i], s[j]]
        0 <= i < s.len() && 0 <= j < s.len() && s[i] == '.' && s[j] == '.' ==> i == j
}

/// The text of a decimal number, with an optional sign.
pub open spec fn number_text(s: Seq<char>) -> bool {
    if s.len() > 0 && is_sign(s[0]) {
        unsigned_number(s.skip(1))
    } else {
        unsigned_number(s)
    }
}

/// Whether `s` is the text of a decimal number.
pub fn is_number_text(s: &str) -> (r: bool)
    ensures
        r == number_text(s@),
{
    let n = s.unicode_len();
    let start: usize = if n > 0 && (s.get_char(0) == '-' || s.get_char(0) == '+') { 1 } else { 0 };
    let ghost body = s@.skip(start as int);
    assert(number_text(s@) == unsigned_number(body)) by {
        if start == 0 {
            assert(s@.skip(0) =~= s@);
        }
    }
    if start == n {
        return false;
    }
    if s.get_char(start) == '.' || s.get_char(n - 1) == '.' {
        return false;
    }
    let mut dot: Option<usize> = None;
    let mut i: usize = start;
    while i < n
        invariant
            n == s@.len(),
            start < n,
            start <= i <= n,
            body == s@.skip(start as int),
            number_text(s@) == unsigned_number(body),
            body.len() == n - start,
            body[0] != '.',
            body.last() != '.',
            forall|k: int| 0 <= k < i - start ==> ('0' <= #[trigger] body[k] <= '9' || body[k] == '.'),
            match dot {
                None => forall|k: int| 0 <= k < i - start ==> #[trigger] body[k] != '.',
                Some(d) => start <= d < i && body[d - start] == '.' && forall|k: int|
                    0 <= k < i - start && k != d - start ==> #[trigger] body[k] != '.',
            },
        decreases n - i,
    {
        let c = s.get_char(i);
        assert(body[i - start] == c);
        if c == '.' {
            if let Some(d) = dot {
                assert(body[d - start] == '.' && body[i - start] == '.');
                assert(d - start != i - start);
                assert(!unsigned_number(body));
                return false;
            }
            dot = Some(i);
        } else if c < '0' || c > '9' {
            assert(!('0' <= body[i - start] <= '9' || body[i - start] == '.'));
            assert(!unsigned_number(body));
            return false;
        }
        i = i + 1;
    }
    true
}

/// Pieces joined with commas between them.
pub open spec fn comma_joined(p: Seq<Seq<char>>) -> Seq<char>
    decreases p.len(),
{
    if p.len() == 0 {
        Seq::empty()
    } else if p.len() == 1 {
        p[0]
    } else {
        comma_joined(p.drop_last()) + seq![','] + p.last()
    }
}

pub open spec fn texts_of(v: Seq<String>) -> Seq<Seq<char>> {
    v.map_values(|t: String| t@)
}

/// Splits the text of a bbox parameter at its commas.
pub fn split_ordinates(text: &str) -> (r: Vec<String>)
    ensures
        r@.len() >= 1,
        comma_joined(texts_of(r@)) == text@,
        forall|i: int| 0 <= i < r@.len() ==> !(#[trigger] r@[i])@.contains(','),
{
    let n = text.unicode_len();
    let mut pieces: Vec<String> = Vec::new();
    let mut start: usize = 0;
    let mut i: usize = 0;
    while i < n
        invariant
            n == text@.len(),
            start <= i <= n,
            pieces@.len() == 0 ==> start == 0,
            pieces@.len() > 0 ==> start >= 1 && comma_joined(texts_of(pieces@)) + seq![','] == text@.subrange(0, start as int),
            forall|k: int| 0 <= k < pieces@.len() ==> !(#[trigger] pieces@[k])@.contains(','),
            forall|k: int| start <= k < i ==> text@[k] != ',',
        decreases n - i,
    {
        if text.get_char(i) == ',' {
            let piece = String::from_str(text.substring_char(start, i));
            let ghost old_pieces = pieces@;
            proof {
                assert forall|k: int| 0 <= k < piece@.len() implies piece@[k] != ',' by {
                    assert(piece@[k] == text@[start + k]);
                }
            }
            pieces.push(piece);
            proof {
                assert(texts_of(pieces@).drop_last() =~= texts_of(old_pieces));
                if old_pieces.len() == 0 {
                    assert(texts_of(pieces@) =~= seq![piece@]);
                    assert(comma_joined(texts_of(pieces@)) + seq![','] =~= text@.subrange(0, i + 1));
                } else {
                    assert(comma_joined(texts_of(pieces@)) + seq![','] =~= text@.subrange(0, i + 1));
                }
            }
            start = i + 1;
        }
        i = i + 1;
    }
    let last = String::from_str(text.substring_char(start, n));
    let ghost old_pieces = pieces@;
    proof {
        assert forall|k: int| 0 <= k < last@.len() implies last@[k] != ',' by {
            assert(last@[k] == text@[start + k]);
        }
    }
    pieces.push(last);
    proof {
        assert(texts_of(pieces@).drop_last() =~= texts_of(old_pieces));
        if old_pieces.len() == 0 {
            assert(texts_of(pieces@) =~= seq![last@]);
            assert(text@.subrange(0, n as int) =~= text@);
        } else {
            assert(comma_joined(texts_of(pieces@)) =~= text@);
        }
    }
    pieces
}

/// The ordinates of a bbox: 4 (2D) or 6 (3D) numbers.
pub open spec fn valid_ordinates(o: Seq<String>) -> bool {
    &&& (o.len() == 4 || o.len() == 6)
    &&& forall|i: int| 0 <= i < o.len() ==> number_text((#[trigger] o[i])@)
}

/// A rectangular envelope over the horizontal axes, with the SRID of its
/// ordinates.
#[derive(Debug)]
pub struct Envelope {
    pub min_x: String,
    pub min_y: String,
    pub max_x: String,
    pub max_y: String,
    pub srid: u32,
}

pub struct EnvelopeView {
    pub min_x: Seq<char>,
    pub min_y: Seq<char>,
    pub max_x: Seq<char>,
    pub max_y: Seq<char>,
    pub srid: u32,
}

impl View for Envelope {
    type V = EnvelopeView;

    open spec fn view(&self) -> EnvelopeView {
        EnvelopeView {
            min_x: self.min_x@,
            min_y: self.min_y@,
            max_x: self.max_x@,
            max_y: self.max_y@,
            srid: self.srid,
        }
    }
}

/// The envelope of a bbox: ordinates 0, 1, 2, 3 of a 2D bbox, and the
/// horizontal ordinates 0, 1, 3, 4 of a 3D one; heights are not filtered on.
pub open spec fn envelope_of(o: Seq<String>, srid: u32) -> EnvelopeView {
    if o.len() == 4 {
        EnvelopeView { min_x: o[0]@, min_y: o[1]@, max_x: o[2]@, max_y: o[3]@, srid }
    } else {
        EnvelopeView { min_x: o[0]@, min_y: o[1]@, max_x: o[3]@, max_y: o[4]@, srid }
    }
}

/// A 3D bbox constrains only the horizontal extent: two 3D bboxes that agree
/// on their x and y ordinates give the same envelope, whatever their heights.
pub proof fn lemma_bbox_heights_ignored(a: Seq<String>, b: Seq<String>, srid: u32)
    requires
        a.len() == 6,
        b.len() == 6,
        a[0]@ == b[0]@,
        a[1]@ == b[1]@,
        a[3]@ == b[3]@,
        a[4]@ == b[4]@,
    ensures
        envelope_of(a, srid) == envelope_of(b, srid),
{
}

/// The envelope of a bbox given by its ordinates in the CRS `srid`.
pub fn make_envelope(ordinates: &Vec<String>, srid: u32) -> (r: Result<Envelope, QueryError>)
    ensures
        r.is_ok() <==> valid_ordinates(ordinates@),
        r.is_ok() ==> r.unwrap()@ == envelope_of(ordinates@, srid),
        r.is_err() ==> r == Err::<Envelope, QueryError>(QueryError::InvalidBbox),
{
    let n = ordinates.len();
    if n != 4 && n != 6 {
        return Err(QueryError::InvalidBbox);
    }
    let mut i: usize = 0;
    while i < n
        invariant
            n == ordinates@.len(),
            i <= n,
            forall|k: int| 0 <= k < i ==> number_text((#[trigger] ordinates@[k])@),
        decreases n - i,
    {
        if !is_number_text(ordinates[i].as_str()) {
            return Err(QueryError::InvalidBbox);
        }
        i = i + 1;
    }
    let (a, b) = if n == 4 { (2usize, 3usize) } else { (3usize, 4usize) };
    Ok(Envelope {
        min_x: ordinates[0].clone(),
        min_y: ordinates[1].clone(),
        max_x: ordinates[a].clone(),
        max_y: ordinates[b].clone(),
        srid,
    })
}

/// A parsed listing query: bbox ordinates as given, CRS identifiers as given,
/// and the requested window.
#[derive(Debug)]
pub struct Query {
    pub bbox: Option<Vec<String>>,
    pub bbox_crs: Option<String>,
    pub crs: Option<String>,
    pub limit: Option<u64>,
    pub offset: Option<u64>,
    pub filter: Vec<(String, String)>,
}

/// What the translator reads of a collection: its identifier, the SRIDs of
/// the CRSs it supports, and the SRID its geometries are stored in.
#[derive(Debug)]
pub struct CollectionInfo {
    pub id: String,
    pub crs: Vec<u32>,
    pub storage_srid: u32,
}

/// A storage query plan: the collection, an optional envelope predicate,
/// the output SRID, the window and the collection-defined filter parameters.
#[derive(Debug)]
pub struct QueryPlan {
    pub collection: String,
    pub envelope: Option<Envelope>,
    pub output_srid: u32,
    pub limit: u64,
    pub offset: u64,
    pub filter: Vec<(String, String)>,
}

pub open spec fn pair_texts(s: Seq<(String, String)>) -> Seq<(Seq<char>, Seq<char>)> {
    s.map_values(|p: (String, String)| (p.0@, p.1@))
}

/// A copy of a list of parameters with the same texts.
pub fn copy_pairs(v: &Vec<(String, String)>) -> (r: Vec<(String, String)>)
    ensures
        pair_texts(r@) == pair_texts(v@),
{
    let mut out: Vec<(String, String)> = Vec::new();
    let mut i: usize = 0;
    while i < v.len()
        invariant
            i <= v@.len(),
            pair_texts(out@) == pair_texts(v@.take(i as int)),
        decreases v@.len() - i,
    {
        let ghost before = out@;
        let a = v[i].0.clone();
        let b = v[i].1.clone();
        out.push((a, b));
        proof {
            assert(out@ == before.push((a, b)));
            assert(pair_texts(out@) =~= pair_texts(before).push((a@, b@)));
            assert(pair_texts(v@.take(i + 1)) =~= pair_texts(v@.take(i as int)).push((v@[i as int].0@, v@[i as int].1@)));
        }
        i = i + 1;
    }
    assert(v@.take(i as int) =~= v@);
    out
}

pub open spec fn is_known_key(k: Seq<char>) -> bool {
    k == "bbox"@ || k == "bbox-crs"@ || k == "crs"@ || k == "limit"@ || k == "offset"@
}

/// The value of the last parameter named `k`.
pub open spec fn last_value(p: Seq<(Seq<char>, Seq<char>)>, k: Seq<char>) -> Option<Seq<char>>
    decreases p.len(),
{
    if p.len() == 0 {
        None
    } else if p.last().0 == k {
        Some(p.last().1)
    } else {
        last_value(p.drop_last(), k)
    }
}

/// The parameters that are not part of the core vocabulary, in order.
pub open spec fn other_pairs(p: Seq<(Seq<char>, Seq<char>)>) -> Seq<(Seq<char>, Seq<char>)>
    decreases p.len(),
{
    if p.len() == 0 {
        Seq::empty()
    } else if is_known_key(p.last().0) {
        other_pairs(p.drop_last())
    } else {
        other_pairs(p.drop_last()).push(p.last())
    }
}

/// A whole-number parameter: absent, or its value; `None` when malformed.
pub open spec fn number_param(v: Option<Seq<char>>) -> Option<Option<u64>> {
    match v {
        None => Some(None),
        Some(t) => match decimal_up_to(t, u64::MAX) {
            Some(n) => Some(Some(n)),
            None => None,
        },
    }
}

/// The query that decoded parameters give, when `limit` and `offset` are
/// whole numbers: the last value of each core parameter, the bbox split at
/// its commas, and the other parameters as filter.
pub open spec fn decoded(q: Query, p: Seq<(Seq<char>, Seq<char>)>) -> bool {
    &&& Some(q.limit) == number_param(last_value(p, "limit"@))
    &&& Some(q.offset) == number_param(last_value(p, "offset"@))
    &&& opt_text(q.crs) == last_value(p, "crs"@)
    &&& opt_text(q.bbox_crs) == last_value(p, "bbox-crs"@)
    &&& pair_texts(q.filter@) == other_pairs(p)
    &&& match last_value(p, "bbox"@) {
        None => q.bbox.is_none(),
        Some(t) => q.bbox.is_some() && comma_joined(texts_of(q.bbox.unwrap()@)) == t
            && forall|i: int| 0 <= i < q.bbox.unwrap()@.len() ==> !(#[trigger] q.bbox.unwrap()@[i])@.contains(','),
    }
}

fn text_is(s: &str, lit: &str) -> (r: bool)
    ensures
        r == (s@ == lit@),
{
    let r = starts_with(s, lit) && s.unicode_len() == lit.unicode_len();
    proof {
        if s@ == lit@ {
            assert(s@.subrange(0, lit@.len() as int) =~= s@);
        }
        if r {
            assert(s@ =~= s@.subrange(0, lit@.len() as int));
        }
    }
    r
}

fn number_from(v: &Option<String>) -> (r: Option<Option<u64>>)
    ensures
        r == number_param(opt_text(*v)),
{
    match v {
        None => Some(None),
        Some(t) => {
            let n = t.unicode_len();
            proof {
                assert(t@.subrange(0, n as int) =~= t@);
            }
            match parse_decimal_from(t.as_str(), 0, u64::MAX) {
                Some(x) => Some(Some(x)),
                None => None,
            }
        },
    }
}

fn set_last(slot: &mut Option<String>, v: &String)
    ensures
        opt_text(*final(slot)) == Some(v@),
{
    *slot = Some(v.clone());
}

impl Query {
    /// Decodes a query from its parameters, given as decoded key/value pairs
    /// in the order they arrived.
    pub fn from_pairs(pairs: &Vec<(String, String)>) -> (r: Result<Query, QueryError>)
        ensures
            r.is_ok() <==> number_param(last_value(pair_texts(pairs@), "limit"@)).is_some()
                && number_param(last_value(pair_texts(pairs@), "offset"@)).is_some(),
            r.is_err() ==> r == Err::<Query, QueryError>(QueryError::InvalidParameter),
            r.is_ok() ==> decoded(r.unwrap(), pair_texts(pairs@)),
    {
        let ghost p = pair_texts(pairs@);
        let mut bbox: Option<String> = None;
        let mut bbox_crs: Option<String> = None;
        let mut crs: Option<String> = None;
        let mut limit: Option<String> = None;
        let mut offset: Option<String> = None;
        let mut filter: Vec<(String, String)> = Vec::new();
        let mut i: usize = 0;
        while i < pairs.len()
            invariant
                i <= pairs@.len(),
                p == pair_texts(pairs@),
                opt_text(bbox) == last_value(p.take(i as int), "bbox"@),
                opt_text(bbox_crs) == last_value(p.take(i as int), "bbox-crs"@),
                opt_text(crs) == last_value(p.take(i as int), "crs"@),
                opt_text(limit) == last_value(p.take(i as int), "limit"@),
                opt_text(offset) == last_value(p.take(i as int), "offset"@),
                pair_texts(filter@) == other_pairs(p.take(i as int)),
            decreases pairs@.len() - i,
        {
            let k = pairs[i].0.as_str();
            let v = &pairs[i].1;
            proof {
                reveal_strlit("bbox");
                reveal_strlit("bbox-crs");
                reveal_strlit("crs");
                reveal_strlit("limit");
                reveal_strlit("offset");
                assert("bbox"@.len() == 4 && "bbox-crs"@.len() == 8 && "crs"@.len() == 3);
                assert("limit"@.len() == 5 && "offset"@.len() == 6);
                assert(p.take(i + 1).drop_last() =~= p.take(i as int));
                assert(p.take(i + 1).last() == (k@, v@));
            }
            if text_is(k, "bbox") {
                set_last(&mut bbox, v);
            } else if text_is(k, "bbox-crs") {
                set_last(&mut bbox_crs, v);
            } else if text_is(k, "crs") {
                set_last(&mut crs, v);
            } else if text_is(k, "limit") {
                set_last(&mut limit, v);
            } else if text_is(k, "offset") {
                set_last(&mut offset, v);
            } else {
                filter.push((pairs[i].0.clone(), v.clone()));
                proof {
                    assert(pair_texts(filter@) =~= other_pairs(p.take(i as int)).push((k@, v@)));
                }
            }
            i = i + 1;
        }
        proof {
            assert(p.take(i as int) =~= p);
        }
        let limit = match number_from(&limit) {
            Some(n) => n,
            None => {
                return Err(QueryError::InvalidParameter);
            },
        };
        let offset = match number_from(&offset) {
            Some(n) => n,
            None => {
                return Err(QueryError::InvalidParameter);
            },
        };
        let bbox = match bbox {
            Some(t) => Some(split_ordinates(t.as_str())),
            None => None,
        };
        Ok(Query { bbox, bbox_crs, crs, limit, offset, filter })
    }
}

/// The output SRID a query asks for: the default when it names none, and
/// none when its identifier cannot be resolved.
pub open spec fn output_srid_of(crs: Option<Seq<char>>) -> Option<u32> {
    match crs {
        None => Some(DEFAULT_SRID),
        Some(t) => srid_of(t),
    }
}

/// The first validation a query fails, if any: the output CRS, then the bbox.
pub open spec fn plan_error(q: Query, c: CollectionInfo) -> Option<QueryError> {
    match output_srid_of(opt_text(q.crs)) {
        None => Some(QueryError::InvalidCrsIdentifier),
        Some(srid) => if !c.crs@.contains(srid) {
            Some(QueryError::UnsupportedCrs)
        } else {
            match q.bbox {
                Some(o) => if valid_ordinates(o@) {
                    None
                } else {
                    Some(QueryError::InvalidBbox)
                },
                None => None,
            }
        },
    }
}

/// The plan of a query that passes validation.
pub open spec fn plan_matches(p: QueryPlan, q: Query, c: CollectionInfo) -> bool {
    &&& p.collection@ == c.id@
    &&& Some(p.output_srid) == output_srid_of(opt_text(q.crs))
    &&& p.limit == clamped_limit(q.limit)
    &&& p.offset == match q.offset {
        Some(o) => o,
        None => 0,
    }
    &&& pair_texts(p.filter@) == pair_texts(q.filter@)
    &&& match q.bbox {
        None => p.envelope.is_none(),
        Some(o) => p.envelope.is_some() && p.envelope.unwrap()@ == envelope_of(
            o@,
            resolved_srid(opt_text(q.bbox_crs)),
        ),
    }
}

/// The SRIDs that resolve from the identifiers, in order.
pub open spec fn resolvable_srids(ids: Seq<Seq<char>>) -> Seq<u32>
    decreases ids.len(),
{
    if ids.len() == 0 {
        Seq::empty()
    } else {
        match srid_of(ids.last()) {
            Some(c) => resolvable_srids(ids.drop_last()).push(c),
            None => resolvable_srids(ids.drop_last()),
        }
    }
}

/// The SRIDs a collection supports, from its CRS identifiers: those that
/// resolve, or the default alone when none does.
pub open spec fn supported_srids_of(ids: Seq<Seq<char>>) -> Seq<u32> {
    if resolvable_srids(ids).len() == 0 {
        seq![DEFAULT_SRID]
    } else {
        resolvable_srids(ids)
    }
}

/// The SRIDs a collection supports, from its CRS identifiers.
pub fn supported_srids(ids: &Vec<String>) -> (r: Vec<u32>)
    ensures
        r@ == supported_srids_of(texts_of(ids@)),
{
    let mut out: Vec<u32> = Vec::new();
    let mut i: usize = 0;
    while i < ids.len()
        invariant
            i <= ids@.len(),
            out@ == resolvable_srids(texts_of(ids@.take(i as int))),
        decreases ids@.len() - i,
    {
        proof {
            assert(texts_of(ids@.take(i + 1)).drop_last() =~= texts_of(ids@.take(i as int)));
            assert(texts_of(ids@.take(i + 1)).last() == ids@[i as int]@);
        }
        match parse_srid(ids[i].as_str()) {
            Some(c) => out.push(c),
            None => {},
        }
        i = i + 1;
    }
    assert(ids@.take(i as int) =~= ids@);
    if out.len() == 0 {
        let mut d: Vec<u32> = Vec::new();
        d.push(DEFAULT_SRID);
        assert(d@ =~= seq![DEFAULT_SRID]);
        return d;
    }
    out
}

/// Whether `srid` is one of `supported`.
pub fn supports_srid(supported: &Vec<u32>, srid: u32) -> (r: bool)
    ensures
        r == supported@.contains(srid),
{
    let mut i: usize = 0;
    while i < supported.len()
        invariant
            i <= supported@.len(),
            forall|k: int| 0 <= k < i ==> supported@[k] != srid,
        decreases supported@.len() - i,
    {
        if supported[i] == srid {
            return true;
        }
        i = i + 1;
    }
    false
}

/// Turns a query on a collection into a storage plan. The output CRS must
/// resolve and be supported by the collection; a bbox CRS that does not
/// resolve falls back to the default.
pub fn translate(query: &Query, collection: &CollectionInfo) -> (r: Result<QueryPlan, QueryError>)
    ensures
        r.is_err() <==> plan_error(*query, *collection).is_some(),
        r.is_err() ==> r == Err::<QueryPlan, QueryError>(plan_error(*query, *collection).unwrap()),
        r.is_ok() ==> plan_matches(r.unwrap(), *query, *collection),
{
    let output_srid = match &query.crs {
        None => DEFAULT_SRID,
        Some(t) => match parse_srid(t.as_str()) {
            Some(code) => code,
            None => {
                return Err(QueryError::InvalidCrsIdentifier);
            },
        },
    };
    if !supports_srid(&collection.crs, output_srid) {
        return Err(QueryError::UnsupportedCrs);
    }
    let envelope = match &query.bbox {
        None => None,
        Some(ordinates) => {
            let bbox_srid = match &query.bbox_crs {
                Some(t) => resolve_srid(Some(t.as_str())),
                None => resolve_srid(None),
            };
            match make_envelope(ordinates, bbox_srid) {
                Ok(e) => Some(e),
                Err(e) => {
                    return Err(e);
                },
            }
        },
    };
    let offset = match query.offset {
        Some(o) => o,
        None => 0,
    };
    Ok(QueryPlan {
        collection: collection.id.clone(),
        envelope,
        output_srid,
        limit: clamp_limit(query.limit),
        offset,
        filter: copy_pairs(&query.filter),
    })
}

} // verus!
