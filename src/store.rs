use vstd::prelude::*;
use vstd::string::*;

use crate::query::QueryPlan;

verus! {

/// Why a storage operation failed.
#[derive(Debug, Clone, Copy, PartialEq, Eq, Structural)]
pub enum StoreError {
    /// The collection or the feature does not exist.
    NotFound,
    /// A collection with that identifier exists already.
    Conflict,
    /// The underlying storage failed.
    StorageFailure,
}

pub open spec fn ident_char(c: char) -> bool {
    ('a' <= c <= 'z') || ('0' <= c <= '9') || c == '_'
}

/// A name that may stand as a storage namespace segment: lower-case letters,
/// digits and `_`, not starting with a digit.
pub open spec fn safe_identifier(s: Seq<char>) -> bool {
    &&& s.len() > 0
    &&& !('0' <= s[0] <= '9')
    &&& forall|i: int| 0 <= i < s.len() ==> ident_char(#[trigger] s[i])
}

/// Whether `s` may stand as a storage namespace segment.
pub fn is_safe_identifier(s: &str) -> (r: bool)
    ensures
        r == safe_identifier(s@),
{
    let n = s.unicode_len();
    if n == 0 {
        return false;
    }
    let c0 = s.get_char(0);
    if '0' <= c0 && c0 <= '9' {
        return false;
    }
    let mut i: usize = 0;
    while i < n
        invariant
            n == s@.len(),
            i <= n,
            forall|k: int| 0 <= k < i ==> ident_char(#[trigger] s@[k]),
        decreases n - i,
    {
        let c = s.get_char(i);
        if !(('a' <= c && c <= 'z') || ('0' <= c && c <= '9') || c == '_') {
            assert(!ident_char(s@[i as int]));
            return false;
        }
        i = i + 1;
    }
    true
}

pub open spec fn registered(names: Seq<String>, name: Seq<char>) -> bool {
    exists|i: int| 0 <= i < names.len() && (#[trigger] names[i])@ == name
}

/// The storage namespace token of a collection: the name itself, when it is
/// registered and safe; `NotFound` otherwise. Only such a token is ever
/// written into statement text.
pub fn collection_token(names: &Vec<String>, name: &str) -> (r: Result<String, StoreError>)
    ensures
        r.is_ok() <==> registered(names@, name@) && safe_identifier(name@),
        r.is_ok() ==> r.unwrap()@ == name@,
        r.is_err() ==> r == Err::<String, StoreError>(StoreError::NotFound),
{
    let wanted = String::from_str(name);
    let mut i: usize = 0;
    let mut found = false;
    while i < names.len()
        invariant
            i <= names@.len(),
            wanted@ == name@,
            found <==> exists|k: int| 0 <= k < i && (#[trigger] names@[k])@ == name@,
        decreases names@.len() - i,
    {
        if names[i] == wanted {
            found = true;
        }
        i = i + 1;
    }
    if found && is_safe_identifier(name) {
        Ok(wanted)
    } else {
        Err(StoreError::NotFound)
    }
}

/// Columns returned for a feature, with geometry transformed to the SRID
/// bound as parameter `$1`.
pub const SELECT_COLUMNS: &'static str = "SELECT id, properties, ST_AsGeoJSON(ST_Transform(geom, $1::int))::jsonb AS geometry, links, assets, extra FROM items.";

pub const INSERT_HEAD: &'static str = "INSERT INTO items.";

/// Members of a feature document other than those with columns of their own
/// are kept, as they came, in `extra`.
pub const INSERT_TAIL: &'static str = " (properties, geom, links, assets, extra) VALUES ($1 -> 'properties', ST_GeomFromGeoJSON($1 -> 'geometry'), $1 -> 'links', COALESCE($1 -> 'assets', '{}'::jsonb), $1 - 'id' - 'collection' - 'type' - 'properties' - 'geometry' - 'links' - 'assets') RETURNING id";

pub const UPDATE_HEAD: &'static str = "UPDATE items.";

pub const UPDATE_TAIL: &'static str = " SET properties = $1 -> 'properties', geom = ST_GeomFromGeoJSON($1 -> 'geometry'), links = $1 -> 'links', assets = COALESCE($1 -> 'assets', '{}'::jsonb), extra = $1 - 'id' - 'collection' - 'type' - 'properties' - 'geometry' - 'links' - 'assets' WHERE id = $1 ->> 'id'";

pub const DELETE_HEAD: &'static str = "DELETE FROM items.";

pub const BY_ID: &'static str = " WHERE id = $2";

pub const DELETE_BY_ID: &'static str = " WHERE id = $1";

/// The spatial predicate: the envelope of parameters `$2`..`$5` in the SRID
/// `$6`, transformed to the storage SRID `$7`.
pub const ENVELOPE_FILTER: &'static str = " WHERE geom && ST_Transform(ST_MakeEnvelope($2::float8, $3::float8, $4::float8, $5::float8, $6::int), $7::int)";

pub const COUNT_HEAD: &'static str = "SELECT count(*) FROM (";

pub const COUNT_TAIL: &'static str = ") AS matched";

pub const PAGE_WINDOW: &'static str = " ORDER BY id LIMIT $8 OFFSET $9";

pub const PAGE_WINDOW_UNFILTERED: &'static str = " ORDER BY id LIMIT $2 OFFSET $3";

pub open spec fn insert_text(token: Seq<char>) -> Seq<char> {
    INSERT_HEAD@ + token + INSERT_TAIL@
}

pub open spec fn select_text(token: Seq<char>) -> Seq<char> {
    SELECT_COLUMNS@ + token + BY_ID@
}

pub open spec fn update_text(token: Seq<char>) -> Seq<char> {
    UPDATE_HEAD@ + token + UPDATE_TAIL@
}

pub open spec fn delete_text(token: Seq<char>) -> Seq<char> {
    DELETE_HEAD@ + token + DELETE_BY_ID@
}

pub open spec fn filter_text(filtered: bool) -> Seq<char> {
    if filtered {
        ENVELOPE_FILTER@
    } else {
        Seq::empty()
    }
}

/// The rows of a listing before windowing: both phases read this text.
pub open spec fn matching_text(token: Seq<char>, filtered: bool) -> Seq<char> {
    SELECT_COLUMNS@ + token + filter_text(filtered)
}

pub open spec fn count_text(token: Seq<char>, filtered: bool) -> Seq<char> {
    COUNT_HEAD@ + matching_text(token, filtered) + COUNT_TAIL@
}

pub open spec fn page_text(token: Seq<char>, filtered: bool) -> Seq<char> {
    matching_text(token, filtered) + (if filtered {
        PAGE_WINDOW@
    } else {
        PAGE_WINDOW_UNFILTERED@
    })
}

fn three(a: &str, b: &str, c: &str) -> (r: String)
    ensures
        r@ == a@ + b@ + c@,
{
    let mut out = String::from_str(a);
    out.append(b);
    out.append(c);
    out
}

/// Statement inserting a feature bound as JSON in `$1`, returning its id.
pub fn insert_statement(token: &str) -> (r: String)
    requires
        safe_identifier(token@),
    ensures
        r@ == insert_text(token@),
{
    three(INSERT_HEAD, token, INSERT_TAIL)
}

/// Statement reading the feature with id `$2`, geometry in SRID `$1`.
pub fn select_statement(token: &str) -> (r: String)
    requires
        safe_identifier(token@),
    ensures
        r@ == select_text(token@),
{
    three(SELECT_COLUMNS, token, BY_ID)
}

/// Statement replacing the feature bound as JSON in `$1`, matched by its id.
pub fn update_statement(token: &str) -> (r: String)
    requires
        safe_identifier(token@),
    ensures
        r@ == update_text(token@),
{
    three(UPDATE_HEAD, token, UPDATE_TAIL)
}

/// Statement deleting the feature with id `$1`.
pub fn delete_statement(token: &str) -> (r: String)
    requires
        safe_identifier(token@),
    ensures
        r@ == delete_text(token@),
{
    three(DELETE_HEAD, token, DELETE_BY_ID)
}

/// Statement counting the rows that satisfy the predicate: it counts the
/// rows of the same text that the page statement windows.
pub fn count_statement(token: &str, filtered: bool) -> (r: String)
    requires
        safe_identifier(token@),
    ensures
        r@ == count_text(token@, filtered),
{
    let mut out = String::from_str(COUNT_HEAD);
    out.append(SELECT_COLUMNS);
    out.append(token);
    if filtered {
        out.append(ENVELOPE_FILTER);
    }
    out.append(COUNT_TAIL);
    assert(out@ =~= count_text(token@, filtered));
    out
}

/// Statement fetching one window of the rows that satisfy the predicate.
pub fn page_statement(token: &str, filtered: bool) -> (r: String)
    requires
        safe_identifier(token@),
    ensures
        r@ == page_text(token@, filtered),
{
    let mut out = String::from_str(SELECT_COLUMNS);
    out.append(token);
    if filtered {
        out.append(ENVELOPE_FILTER);
        out.append(PAGE_WINDOW);
    } else {
        out.append(PAGE_WINDOW_UNFILTERED);
    }
    assert(out@ =~= page_text(token@, filtered));
    out
}

/// A value bound to a statement parameter.
#[derive(Debug)]
pub enum Param {
    Int(u64),
    Text(String),
}

pub enum ParamView {
    Int(u64),
    Text(Seq<char>),
}

impl View for Param {
    type V = ParamView;

    open spec fn view(&self) -> ParamView {
        match self {
            Param::Int(v) => ParamView::Int(*v),
            Param::Text(s) => ParamView::Text(s@),
        }
    }
}

/// The parameters of the count statement, in placeholder order: output SRID,
/// then for a spatial predicate the envelope ordinates, their SRID and the
/// storage SRID.
pub open spec fn count_params(plan: QueryPlan, storage_srid: u32) -> Seq<ParamView> {
    match plan.envelope {
        Some(e) => seq![
            ParamView::Int(plan.output_srid as u64),
            ParamView::Text(e.min_x@),
            ParamView::Text(e.min_y@),
            ParamView::Text(e.max_x@),
            ParamView::Text(e.max_y@),
            ParamView::Int(e.srid as u64),
            ParamView::Int(storage_srid as u64),
        ],
        None => seq![ParamView::Int(plan.output_srid as u64)],
    }
}

/// The parameters of the page statement: those of the count statement, then
/// limit and offset.
pub open spec fn list_params(plan: QueryPlan, storage_srid: u32) -> Seq<ParamView> {
    count_params(plan, storage_srid) + seq![ParamView::Int(plan.limit), ParamView::Int(plan.offset)]
}

pub open spec fn param_views(s: Seq<Param>) -> Seq<ParamView> {
    s.map_values(|p: Param| p@)
}

/// The parameters bound to the count statement of `plan`.
pub fn count_parameters(plan: &QueryPlan, storage_srid: u32) -> (r: Vec<Param>)
    ensures
        param_views(r@) == count_params(*plan, storage_srid),
{
    let mut v: Vec<Param> = Vec::new();
    v.push(Param::Int(plan.output_srid as u64));
    match &plan.envelope {
        Some(e) => {
            v.push(Param::Text(e.min_x.clone()));
            v.push(Param::Text(e.min_y.clone()));
            v.push(Param::Text(e.max_x.clone()));
            v.push(Param::Text(e.max_y.clone()));
            v.push(Param::Int(e.srid as u64));
            v.push(Param::Int(storage_srid as u64));
        },
        None => {},
    }
    assert(param_views(v@) =~= count_params(*plan, storage_srid));
    v
}

/// The parameters bound to the page statement of `plan`.
pub fn list_parameters(plan: &QueryPlan, storage_srid: u32) -> (r: Vec<Param>)
    ensures
        param_views(r@) == list_params(*plan, storage_srid),
{
    let mut v = count_parameters(plan, storage_srid);
    let ghost counted = v@;
    v.push(Param::Int(plan.limit));
    v.push(Param::Int(plan.offset));
    assert(param_views(v@) =~= param_views(counted) + seq![ParamView::Int(plan.limit), ParamView::Int(plan.offset)]);
    v
}

/// Both phases of a listing read the same rows: the count statement counts
/// the text that the page statement windows, and the page statement binds
/// the count statement's parameters in the same places.
pub proof fn lemma_listing_phases_agree(token: Seq<char>, filtered: bool, plan: QueryPlan, storage_srid: u32)
    ensures
        count_text(token, filtered) == COUNT_HEAD@ + matching_text(token, filtered) + COUNT_TAIL@,
        page_text(token, filtered).subrange(0, matching_text(token, filtered).len() as int) == matching_text(token, filtered),
        list_params(plan, storage_srid).subrange(0, count_params(plan, storage_srid).len() as int) == count_params(plan, storage_srid),
{
    assert(page_text(token, filtered).subrange(0, matching_text(token, filtered).len() as int) =~= matching_text(token, filtered));
    assert(list_params(plan, storage_srid).subrange(0, count_params(plan, storage_srid).len() as int) =~= count_params(plan, storage_srid));
}

/// Statement creating the storage of a new collection.
pub open spec fn create_table_text(token: Seq<char>) -> Seq<char> {
    CREATE_HEAD@ + token + CREATE_TAIL@
}

pub const CREATE_HEAD: &'static str = "CREATE TABLE items.";

pub const CREATE_TAIL: &'static str = " (id text PRIMARY KEY DEFAULT gen_random_uuid()::text, properties jsonb, geom geometry NOT NULL, links jsonb, assets jsonb, extra jsonb)";

/// Statement creating the storage of the collection `token`.
pub fn create_table_statement(token: &str) -> (r: String)
    requires
        safe_identifier(token@),
    ensures
        r@ == create_table_text(token@),
{
    three(CREATE_HEAD, token, CREATE_TAIL)
}

/// The outcome of an update that changed `rows` rows: an update of an absent
/// feature is `NotFound`.
pub fn update_outcome(rows: u64) -> (r: Result<(), StoreError>)
    ensures
        r.is_ok() <==> rows > 0,
        r.is_err() ==> r == Err::<(), StoreError>(StoreError::NotFound),
{
    if rows == 0 {
        Err(StoreError::NotFound)
    } else {
        Ok(())
    }
}

/// The hrefs of a collection's resources under the service root `base`:
/// the landing page, the collection and its items.
pub fn resource_hrefs(base: &str, collection: &str) -> (r: (String, String, String))
    ensures
        r.0@ == base@ + "/"@,
        r.1@ == base@ + "/collections/"@ + collection@,
        r.2@ == base@ + "/collections/"@ + collection@ + "/items"@,
{
    let mut root = String::from_str(base);
    root.append("/");
    let mut coll = String::from_str(base);
    coll.append("/collections/");
    coll.append(collection);
    let mut items = coll.clone();
    items.append("/items");
    (root, coll, items)
}

/// The canonical path of a stored feature: `collections/{c}/items/{id}`.
pub open spec fn feature_path_text(collection: Seq<char>, id: Seq<char>) -> Seq<char> {
    "collections/"@ + collection + "/items/"@ + id
}

/// The canonical path of a stored feature.
pub fn feature_path(collection: &str, id: &str) -> (r: String)
    ensures
        r@ == feature_path_text(collection@, id@),
{
    let mut out = String::from_str("collections/");
    out.append(collection);
    out.append("/items/");
    out.append(id);
    out
}

} // verus!
