use vstd::prelude::*;
use vstd::string::*;

verus! {

/// The SRID assumed when no usable CRS identifier is given (WGS 84).
pub const DEFAULT_SRID: u32 = 4326;

/// URI prefix of CRS identifiers from the EPSG register.
pub const EPSG_URI_PREFIX: &'static str = "http://www.opengis.net/def/crs/EPSG/0/";

/// Short prefix form `EPSG:<code>`.
pub const EPSG_PREFIX: &'static str = "EPSG:";

/// URI of OGC's CRS84, WGS 84 with longitude first.
pub const CRS84_URI: &'static str = "http://www.opengis.net/def/crs/OGC/1.3/CRS84";

pub open spec fn is_digit(c: char) -> bool {
    '0' <= c && c <= '9'
}

pub open spec fn digit_value(c: char) -> nat {
    (c as int - '0' as int) as nat
}

pub open spec fn digit_char(d: nat) -> char {
    if d == 0 { '0' }
    else if d == 1 { '1' }
    else if d == 2 { '2' }
    else if d == 3 { '3' }
    else if d == 4 { '4' }
    else if d == 5 { '5' }
    else if d == 6 { '6' }
    else if d == 7 { '7' }
    else if d == 8 { '8' }
    else { '9' }
}

pub open spec fn all_digits(s: Seq<char>) -> bool {
    forall|i: int| 0 <= i < s.len() ==> is_digit(#[trigger] s[i])
}

/// The number written by a string of decimal digits.
pub open spec fn decimal_value(s: Seq<char>) -> nat
    decreases s.len(),
{
    if s.len() == 0 {
        0
    } else {
        decimal_value(s.drop_last()) * 10 + digit_value(s.last())
    }
}

/// The shortest decimal digits of `n`.
pub open spec fn decimal_digits(n: nat) -> Seq<char>
    decreases n,
{
    if n < 10 {
        seq![digit_char(n)]
    } else {
        decimal_digits(n / 10).push(digit_char(n % 10))
    }
}

/// The value of a non-empty string of digits, when it is at most `max`.
pub open spec fn decimal_up_to(s: Seq<char>, max: u64) -> Option<u64> {
    if s.len() > 0 && all_digits(s) && decimal_value(s) <= max {
        Some(decimal_value(s) as u64)
    } else {
        None
    }
}

/// A numeric CRS code: a non-empty string of digits whose value fits in `u32`.
pub open spec fn code_of(s: Seq<char>) -> Option<u32> {
    match decimal_up_to(s, u32::MAX as u64) {
        Some(v) => Some(v as u32),
        None => None,
    }
}

pub open spec fn has_prefix(s: Seq<char>, p: Seq<char>) -> bool {
    p.len() <= s.len() && s.subrange(0, p.len() as int) == p
}

/// The SRID named by a CRS identifier: the CRS84 URI, an EPSG URI, the form
/// `EPSG:<code>` or a bare code.
pub open spec fn srid_of(s: Seq<char>) -> Option<u32> {
    if s == CRS84_URI@ {
        Some(DEFAULT_SRID)
    } else if has_prefix(s, EPSG_URI_PREFIX@) {
        code_of(s.subrange(EPSG_URI_PREFIX@.len() as int, s.len() as int))
    } else if has_prefix(s, EPSG_PREFIX@) {
        code_of(s.subrange(EPSG_PREFIX@.len() as int, s.len() as int))
    } else {
        code_of(s)
    }
}

/// The canonical identifier of an SRID.
pub open spec fn crs_text(srid: u32) -> Seq<char> {
    if srid == DEFAULT_SRID {
        CRS84_URI@
    } else {
        EPSG_URI_PREFIX@ + decimal_digits(srid as nat)
    }
}

/// The SRID that an optional identifier resolves to, falling back to the default.
pub open spec fn resolved_srid(identifier: Option<Seq<char>>) -> u32 {
    match identifier {
        Some(s) => match srid_of(s) {
            Some(code) => code,
            None => DEFAULT_SRID,
        },
        None => DEFAULT_SRID,
    }
}

proof fn lemma_value_prefix(s: Seq<char>, k: int)
    requires
        0 <= k <= s.len(),
    ensures
        decimal_value(s.take(k)) <= decimal_value(s),
    decreases s.len(),
{
    if k < s.len() {
        lemma_value_prefix(s.drop_last(), k);
        assert(s.drop_last().take(k) =~= s.take(k));
    } else {
        assert(s.take(k) =~= s);
    }
}

proof fn lemma_digits_value(n: nat)
    ensures
        decimal_digits(n).len() > 0,
        all_digits(decimal_digits(n)),
        decimal_value(decimal_digits(n)) == n,
    decreases n,
{
    let d = decimal_digits(n);
    if n < 10 {
        assert(d.drop_last() =~= Seq::<char>::empty());
        assert(decimal_value(d.drop_last()) == 0);
    } else {
        lemma_digits_value(n / 10);
        assert(d.drop_last() =~= decimal_digits(n / 10));
        assert(n == (n / 10) * 10 + n % 10);
    }
}

/// Whether `s` begins with `p`.
pub fn starts_with(s: &str, p: &str) -> (r: bool)
    ensures
        r == has_prefix(s@, p@),
{
    let n = s.unicode_len();
    let m = p.unicode_len();
    if m > n {
        return false;
    }
    let mut i: usize = 0;
    while i < m
        invariant
            m <= n,
            n == s@.len(),
            m == p@.len(),
            i <= m,
            s@.subrange(0, i as int) == p@.subrange(0, i as int),
        decreases m - i,
    {
        if s.get_char(i) != p.get_char(i) {
            assert(s@.subrange(0, m as int)[i as int] != p@[i as int]);
            return false;
        }
        assert(s@.subrange(0, i + 1) =~= s@.subrange(0, i as int).push(s@[i as int]));
        assert(p@.subrange(0, i + 1) =~= p@.subrange(0, i as int).push(p@[i as int]));
        i = i + 1;
    }
    assert(p@.subrange(0, m as int) =~= p@);
    true
}

/// The value of the digits of `s` from `start` on, when it is at most `max`.
pub fn parse_decimal_from(s: &str, start: usize, max: u64) -> (r: Option<u64>)
    requires
        start <= s@.len(),
    ensures
        r == decimal_up_to(s@.subrange(start as int, s@.len() as int), max),
{
    let n = s.unicode_len();
    let ghost whole = s@.subrange(start as int, n as int);
    if start == n {
        return None;
    }
    let mut v: u64 = 0;
    let mut i: usize = start;
    while i < n
        invariant
            n == s@.len(),
            start <= i <= n,
            start < n,
            whole == s@.subrange(start as int, n as int),
            all_digits(s@.subrange(start as int, i as int)),
            v == decimal_value(s@.subrange(start as int, i as int)),
            v <= max,
        decreases n - i,
    {
        let c = s.get_char(i);
        assert(whole[i - start] == c);
        if c < '0' || c > '9' {
            assert(!is_digit(whole[i - start]));
            return None;
        }
        let d = (c as u32 - '0' as u32) as u64;
        let ghost next = s@.subrange(start as int, i + 1);
        assert(next.drop_last() =~= s@.subrange(start as int, i as int));
        assert(next.last() == c);
        assert(all_digits(next)) by {
            assert forall|j: int| 0 <= j < next.len() implies is_digit(#[trigger] next[j]) by {
                if j < next.len() - 1 {
                    assert(next[j] == s@.subrange(start as int, i as int)[j]);
                }
            }
        }
        if v > (u64::MAX - d) / 10 || v * 10 + d > max {
            proof {
                assert(v * 10 + d > max) by (nonlinear_arith)
                    requires v > (u64::MAX - d) / 10 || v * 10 + d > max, max <= u64::MAX, d <= 9;
            }
            proof {
                assert(whole.take(i + 1 - start) =~= next);
                lemma_value_prefix(whole, i + 1 - start);
            }
            return None;
        }
        v = v * 10 + d;
        i = i + 1;
    }
    Some(v)
}

fn parse_code_from(s: &str, start: usize) -> (r: Option<u32>)
    requires
        start <= s@.len(),
    ensures
        r == code_of(s@.subrange(start as int, s@.len() as int)),
{
    match parse_decimal_from(s, start, u32::MAX as u64) {
        Some(v) => Some(v as u32),
        None => None,
    }
}

/// The SRID named by a CRS identifier, if it names one.
pub fn parse_srid(identifier: &str) -> (r: Option<u32>)
    ensures
        r == srid_of(identifier@),
{
    let n = identifier.unicode_len();
    if starts_with(identifier, CRS84_URI) && n == CRS84_URI.unicode_len() {
        assert(identifier@.subrange(0, n as int) =~= identifier@);
        return Some(DEFAULT_SRID);
    }
    proof {
        if identifier@ == CRS84_URI@ {
            assert(identifier@.subrange(0, n as int) =~= identifier@);
        }
    }
    assert(identifier@ != CRS84_URI@);
    if starts_with(identifier, EPSG_URI_PREFIX) {
        parse_code_from(identifier, EPSG_URI_PREFIX.unicode_len())
    } else if starts_with(identifier, EPSG_PREFIX) {
        parse_code_from(identifier, EPSG_PREFIX.unicode_len())
    } else {
        assert(identifier@.subrange(0, n as int) =~= identifier@);
        parse_code_from(identifier, 0)
    }
}

/// The SRID an optional identifier resolves to; unknown or absent identifiers
/// fall back to the default rather than failing.
pub fn resolve_srid(identifier: Option<&str>) -> (r: u32)
    ensures
        r == resolved_srid(
            match identifier {
                Some(s) => Some(s@),
                None => None,
            },
        ),
{
    match identifier {
        Some(s) => match parse_srid(s) {
            Some(code) => code,
            None => DEFAULT_SRID,
        },
        None => DEFAULT_SRID,
    }
}

fn digit_text(d: u64) -> (r: &'static str)
    requires
        d < 10,
    ensures
        r@ == seq![digit_char(d as nat)],
{
    match d {
        0 => { proof { reveal_strlit("0"); } "0" },
        1 => { proof { reveal_strlit("1"); } "1" },
        2 => { proof { reveal_strlit("2"); } "2" },
        3 => { proof { reveal_strlit("3"); } "3" },
        4 => { proof { reveal_strlit("4"); } "4" },
        5 => { proof { reveal_strlit("5"); } "5" },
        6 => { proof { reveal_strlit("6"); } "6" },
        7 => { proof { reveal_strlit("7"); } "7" },
        8 => { proof { reveal_strlit("8"); } "8" },
        _ => { proof { reveal_strlit("9"); } "9" },
    }
}

/// Appends the decimal digits of `n`.
pub fn append_digits(out: &mut String, n: u64)
    ensures
        final(out)@ == old(out)@ + decimal_digits(n as nat),
    decreases n,
{
    if n >= 10 {
        append_digits(out, n / 10);
    }
    out.append(digit_text(n % 10));
    proof {
        if n < 10 {
            assert(old(out)@ + decimal_digits(n as nat) =~= old(out)@ + seq![digit_char(n as nat)]);
        }
    }
}

/// The canonical identifier of an SRID: the CRS84 URI for the default,
/// an EPSG URI otherwise.
pub fn format_crs(srid: u32) -> (r: String)
    ensures
        r@ == crs_text(srid),
{
    if srid == DEFAULT_SRID {
        String::from_str(CRS84_URI)
    } else {
        let mut out = String::from_str(EPSG_URI_PREFIX);
        append_digits(&mut out, srid as u64);
        out
    }
}

/// Formatting an SRID and resolving the identifier gives the SRID back.
pub proof fn lemma_format_then_parse(srid: u32)
    ensures
        srid_of(crs_text(srid)) == Some(srid),
{
    if srid != DEFAULT_SRID {
        let p = EPSG_URI_PREFIX@;
        let t = crs_text(srid);
        let d = decimal_digits(srid as nat);
        lemma_digits_value(srid as nat);
        reveal_strlit("http://www.opengis.net/def/crs/EPSG/0/");
        reveal_strlit("http://www.opengis.net/def/crs/OGC/1.3/CRS84");
        assert(t[31] != CRS84_URI@[31]);
        assert(t.subrange(0, p.len() as int) =~= p);
        assert(t.subrange(p.len() as int, t.len() as int) =~= d);
    }
}

} // verus!
