use vstd::prelude::*;

use crate::sensor::{SensorType, SensorValue};

verus! {

/// `s` with every non-overlapping occurrence of `pat` (scanned left to right) replaced by `rep`.
pub open spec fn replace_all(s: Seq<char>, pat: Seq<char>, rep: Seq<char>) -> Seq<char>
    decreases s.len(),
{
    if pat.len() == 0 || s.len() < pat.len() {
        s
    } else if s.take(pat.len() as int) == pat {
        rep + replace_all(s.skip(pat.len() as int), pat, rep)
    } else {
        seq![s[0]] + replace_all(s.skip(1), pat, rep)
    }
}

/// Text of a text element: the template with `{value}` and then `{unit}` substituted.
pub open spec fn formatted(format: Seq<char>, value: Seq<char>, unit: Seq<char>) -> Seq<char> {
    replace_all(replace_all(format, "{value}"@, value), "{unit}"@, unit)
}

/// First reading with the given id, looking from position `i` on.
pub open spec fn first_with_id_from(s: Seq<SensorValue>, id: Seq<char>, i: int) -> Option<int>
    decreases s.len() - i,
{
    if i < 0 || i >= s.len() {
        None
    } else if s[i].id@ == id {
        Some(i)
    } else {
        first_with_id_from(s, id, i + 1)
    }
}

pub open spec fn first_with_id(s: Seq<SensorValue>, id: Seq<char>) -> Option<int> {
    first_with_id_from(s, id, 0)
}

/// Whether `s` holds `pat` at position `i`.
fn matches_at(s: &str, n: usize, i: usize, pat: &str, m: usize) -> (r: bool)
    requires
        n == s@.len(),
        m == pat@.len(),
        i <= n,
    ensures
        r == (i + m <= n && s@.subrange(i as int, i + m) == pat@),
{
    if m > n - i {
        return false;
    }
    let mut k: usize = 0;
    while k < m
        invariant
            i + m <= n,
            m == pat@.len(),
            n == s@.len(),
            k <= m,
            s@.subrange(i as int, i + k) == pat@.take(k as int),
        decreases m - k,
    {
        if s.get_char(i + k) != pat.get_char(k) {
            assert(s@.subrange(i as int, i + m)[k as int] != pat@[k as int]);
            return false;
        }
        k = k + 1;
        assert(s@.subrange(i as int, i + k) =~= pat@.take(k as int));
    }
    assert(pat@.take(m as int) =~= pat@);
    true
}

/// `s` with every occurrence of `pat` replaced by `rep`, as `str::replace` does for a non-empty
/// pattern.
pub fn replace_all_exec(s: &str, pat: &str, rep: &str) -> (r: String)
    requires
        pat@.len() > 0,
    ensures
        r@ == replace_all(s@, pat@, rep@),
{
    let n = s.unicode_len();
    let m = pat.unicode_len();
    let mut out = String::new();
    let mut i: usize = 0;
    assert(s@.skip(0) =~= s@);
    assert(out@ + replace_all(s@, pat@, rep@) =~= replace_all(s@, pat@, rep@));
    while i < n
        invariant
            n == s@.len(),
            m == pat@.len(),
            m > 0,
            i <= n,
            out@ + replace_all(s@.skip(i as int), pat@, rep@) == replace_all(s@, pat@, rep@),
        decreases n - i,
    {
        let ghost rest = s@.skip(i as int);
        if matches_at(s, n, i, pat, m) {
            assert(rest.take(m as int) =~= s@.subrange(i as int, i + m));
            assert(rest.skip(m as int) =~= s@.skip(i + m));
            out.append(rep);
            i = i + m;
        } else {
            if m <= n - i {
                assert(rest.take(m as int) =~= s@.subrange(i as int, i + m));
            }
            assert(rest.skip(1) =~= s@.skip(i + 1));
            out.append(s.substring_char(i, i + 1));
            assert(s@.subrange(i as int, i + 1) =~= seq![rest[0]]);
            i = i + 1;
        }
        assert(out@ + replace_all(s@.skip(i as int), pat@, rep@) == replace_all(s@, pat@, rep@))
            by {
            assert forall|a: Seq<char>, b: Seq<char>, c: Seq<char>| (a + b) + c =~= a + (b + c) by {}
        }
    }
    assert(s@.skip(n as int) =~= Seq::<char>::empty());
    assert(out@ + Seq::<char>::empty() =~= out@);
    out
}

/// Fills a text template: `{value}` and then `{unit}` substituted.
pub fn format_text(format: &str, value: &str, unit: &str) -> (r: String)
    ensures
        r@ == formatted(format@, value@, unit@),
{
    let pv = "{value}";
    let pu = "{unit}";
    proof {
        reveal_strlit("{value}");
        reveal_strlit("{unit}");
    }
    let first = replace_all_exec(format, pv, value);
    replace_all_exec(first.as_str(), pu, unit)
}

/// Position of the first reading with the given id.
pub fn find_sensor(snapshot: &Vec<SensorValue>, sensor_id: &str) -> (r: Option<usize>)
    ensures
        match r {
            Some(i) => i < snapshot@.len() && first_with_id(snapshot@, sensor_id@) == Some(i as int),
            None => first_with_id(snapshot@, sensor_id@) is None,
        },
{
    let mut i: usize = 0;
    while i < snapshot.len()
        invariant
            i <= snapshot@.len(),
            first_with_id(snapshot@, sensor_id@) == first_with_id_from(snapshot@, sensor_id@, i as int),
        decreases snapshot@.len() - i,
    {
        if str_eq(snapshot[i].id.as_str(), sensor_id) {
            return Some(i);
        }
        i = i + 1;
    }
    None
}

/// Character-wise string equality.
pub fn str_eq(a: &str, b: &str) -> (r: bool)
    ensures
        r == (a@ == b@),
{
    let n = a.unicode_len();
    let m = b.unicode_len();
    if n != m {
        return false;
    }
    let r = matches_at(a, n, 0, b, m);
    assert(a@.subrange(0, n as int) =~= a@);
    r
}

/// The text a text element shows: the template filled from the first reading with its
/// sensor id, or `N/A` when the snapshot has none.
pub fn text_content(format: &str, sensor_id: &str, snapshot: &Vec<SensorValue>) -> (r: String)
    ensures
        r@ == match first_with_id(snapshot@, sensor_id@) {
            Some(i) => formatted(format@, snapshot@[i].value@, snapshot@[i].unit@),
            None => "N/A"@,
        },
{
    match find_sensor(snapshot, sensor_id) {
        Some(i) => format_text(format, snapshot[i].value.as_str(), snapshot[i].unit.as_str()),
        None => String::from_str("N/A"),
    }
}

/// The values of a sensor through the history (newest first); snapshots without it are skipped.
pub open spec fn value_sequence(history: Seq<Vec<SensorValue>>, sensor_id: Seq<char>) -> Seq<
    Seq<char>,
>
    decreases history.len(),
{
    if history.len() == 0 {
        Seq::empty()
    } else {
        let rest = value_sequence(history.drop_last(), sensor_id);
        match first_with_id(history.last()@, sensor_id) {
            Some(i) => rest.push(history.last()@[i].value@),
            None => rest,
        }
    }
}

/// The values of a sensor through the history, newest first, for a graph.
pub fn extract_value_sequence(history: &Vec<Vec<SensorValue>>, sensor_id: &str) -> (r: Vec<String>)
    ensures
        r@.map_values(|v: String| v@) == value_sequence(history@, sensor_id@),
{
    let mut r: Vec<String> = Vec::new();
    let mut k: usize = 0;
    while k < history.len()
        invariant
            k <= history@.len(),
            r@.map_values(|v: String| v@) == value_sequence(history@.take(k as int), sensor_id@),
        decreases history@.len() - k,
    {
        assert(history@.take(k + 1).drop_last() =~= history@.take(k as int));
        assert(history@.take(k + 1).last() == history@[k as int]);
        match find_sensor(&history[k], sensor_id) {
            Some(i) => {
                r.push(history[k][i].value.clone());
                assert(r@.map_values(|v: String| v@) =~= value_sequence(
                    history@.take(k as int),
                    sensor_id@,
                ).push(history@[k as int]@[i as int].value@));
            },
            None => {},
        }
        k = k + 1;
    }
    assert(history@.take(history@.len() as int) =~= history@);
    r
}

// ---- conditional images ----
pub open spec fn is_digit(c: char) -> bool {
    48 <= (c as u32) <= 57
}

pub open spec fn all_digits(s: Seq<char>) -> bool {
    forall|i: int| 0 <= i < s.len() ==> is_digit(#[trigger] s[i])
}

pub open spec fn digits_value(s: Seq<char>) -> int
    decreases s.len(),
{
    if s.len() == 0 {
        0
    } else {
        digits_value(s.drop_last()) * 10 + ((s.last() as u32) - 48)
    }
}

/// Longest run of integer digits accepted in a value or a file name.
pub const MAX_DIGITS: usize = 18;

/// An integer written as an optional `-` and 1 to 18 digits.
pub open spec fn parse_integer(s: Seq<char>) -> Option<int> {
    let neg = s.len() > 0 && s[0] == '-';
    let d = if neg {
        s.skip(1)
    } else {
        s
    };
    if 0 < d.len() <= MAX_DIGITS && all_digits(d) {
        Some(
            if neg {
                -digits_value(d)
            } else {
                digits_value(d)
            },
        )
    } else {
        None
    }
}

/// Position of the first `.` of `s` from `i` on, or the length of `s`.
pub open spec fn first_dot_from(s: Seq<char>, i: int) -> int
    decreases s.len() - i,
{
    if i < 0 || i >= s.len() {
        s.len() as int
    } else if s[i] == '.' {
        i
    } else {
        first_dot_from(s, i + 1)
    }
}

/// Some character of `s` is not `0`.
pub open spec fn has_nonzero(s: Seq<char>) -> bool {
    exists|i: int| 0 <= i < s.len() && s[i] != '0'
}

/// A decimal number (optional `-`, 1 to 18 integer digits, optional `.` and fraction
/// digits), rounded down to an integer.
pub open spec fn parse_floor(s: Seq<char>) -> Option<int> {
    let neg = s.len() > 0 && s[0] == '-';
    let body = if neg {
        s.skip(1)
    } else {
        s
    };
    let dot = first_dot_from(body, 0);
    let ip = body.take(dot);
    let fp = if dot < body.len() {
        body.skip(dot + 1)
    } else {
        Seq::empty()
    };
    let frac_nonzero = has_nonzero(fp);
    if 0 < ip.len() <= MAX_DIGITS && all_digits(ip) && all_digits(fp) {
        Some(
            if !neg {
                digits_value(ip)
            } else if frac_nonzero {
                -digits_value(ip) - 1
            } else {
                -digits_value(ip)
            },
        )
    } else {
        None
    }
}

/// Position of the last `.` of `s` before `i`, or -1.
pub open spec fn last_dot_before(s: Seq<char>, i: int) -> int
    decreases i,
{
    if i <= 0 || i > s.len() {
        -1
    } else if s[i - 1] == '.' {
        i - 1
    } else {
        last_dot_before(s, i - 1)
    }
}

/// A file name without its extension.
pub open spec fn stem(name: Seq<char>) -> Seq<char> {
    let d = last_dot_before(name, name.len() as int);
    if d >= 0 {
        name.take(d)
    } else {
        name
    }
}

/// Numeric rule: among the first `n` names, the position of the greatest bucket (the integer
/// stem of a name) not above `v`; the earliest one on ties.
pub open spec fn best_bucket(names: Seq<Seq<char>>, v: int, n: int) -> Option<int>
    decreases n,
{
    if n <= 0 {
        None
    } else {
        let prev = best_bucket(names, v, n - 1);
        match parse_integer(stem(names[n - 1])) {
            Some(b) => if b <= v && (prev is None || b > parse_integer(
                stem(names[prev->0]),
            )->0) {
                Some(n - 1)
            } else {
                prev
            },
            None => prev,
        }
    }
}

pub open spec fn ascii_fold(c: char) -> u32 {
    let u = c as u32;
    if 65 <= u <= 90 {
        (u + 32) as u32
    } else {
        u
    }
}

/// Equality up to ASCII letter case.
pub open spec fn eq_ignore_case(a: Seq<char>, b: Seq<char>) -> bool {
    a.len() == b.len() && forall|i: int| 0 <= i < a.len() ==> ascii_fold(#[trigger] a[i]) == ascii_fold(b[i])
}

/// Text rule: position of the first name whose stem equals the value up to letter case,
/// looking from `i` on.
pub open spec fn text_match_from(names: Seq<Seq<char>>, value: Seq<char>, i: int) -> Option<int>
    decreases names.len() - i,
{
    if i < 0 || i >= names.len() {
        None
    } else if eq_ignore_case(stem(names[i]), value) {
        Some(i)
    } else {
        text_match_from(names, value, i + 1)
    }
}

/// The image a conditional image shows for a sensor value: numeric values pick the
/// nearest-lower bucket, text values the name equal up to case; `None` renders blank.
pub open spec fn selected_image(names: Seq<Seq<char>>, value: Seq<char>, sensor_type: SensorType) -> Option<
    int,
> {
    match sensor_type {
        SensorType::Number => match parse_floor(value) {
            Some(v) => best_bucket(names, v, names.len() as int),
            None => None,
        },
        SensorType::Text => text_match_from(names, value, 0),
    }
}

pub open spec fn pow10(n: nat) -> int
    decreases n,
{
    if n == 0 {
        1
    } else {
        10 * pow10((n - 1) as nat)
    }
}

proof fn lemma_pow10_mono(a: nat, b: nat)
    requires
        a <= b,
    ensures
        1 <= pow10(a) <= pow10(b),
    decreases b,
{
    if b > 0 {
        if a < b {
            lemma_pow10_mono(a, (b - 1) as nat);
        } else {
            lemma_pow10_mono((a - 1) as nat, (b - 1) as nat);
        }
    }
}

proof fn lemma_pow10_18()
    ensures
        pow10(18) == 1_000_000_000_000_000_000,
{
    reveal_with_fuel(pow10, 19);
}

/// The digits `s[from..to]` as a number, if they are 1 to 18 digits.
fn parse_digits(s: &str, from: usize, to: usize) -> (r: Option<i64>)
    requires
        from <= to <= s@.len(),
    ensures
        r is Some <==> (0 < to - from <= MAX_DIGITS && all_digits(s@.subrange(from as int, to as int))),
        r matches Some(v) ==> v == digits_value(s@.subrange(from as int, to as int)) && 0 <= v
            < 1_000_000_000_000_000_000,
{
    if to - from == 0 || to - from > MAX_DIGITS {
        return None;
    }
    let mut v: i64 = 0;
    let mut k: usize = from;
    proof {
        lemma_pow10_18();
    }
    while k < to
        invariant
            from <= k <= to <= s@.len(),
            to - from <= MAX_DIGITS,
            all_digits(s@.subrange(from as int, k as int)),
            v == digits_value(s@.subrange(from as int, k as int)),
            0 <= v < pow10((k - from) as nat),
            pow10(18) == 1_000_000_000_000_000_000,
        decreases to - k,
    {
        let c = s.get_char(k);
        let u = c as u32;
        if u < 48 || u > 57 {
            assert(s@.subrange(from as int, to as int)[k - from] == c);
            return None;
        }
        proof {
            lemma_pow10_mono((k - from + 1) as nat, 18);
            assert(pow10((k - from + 1) as nat) == 10 * pow10((k - from) as nat));
            assert(v * 10 + 9 < 10 * pow10((k - from) as nat)) by (nonlinear_arith)
                requires
                    v < pow10((k - from) as nat),
            ;
        }
        let ghost prev = s@.subrange(from as int, k as int);
        v = v * 10 + (u - 48) as i64;
        k = k + 1;
        assert(s@.subrange(from as int, k as int).drop_last() =~= prev);
        assert(s@.subrange(from as int, k as int).last() == c);
        assert forall|i: int| 0 <= i < (k - from) implies is_digit(
            #[trigger] s@.subrange(from as int, k as int)[i],
        ) by {
            if i < k - from - 1 {
                assert(s@.subrange(from as int, k as int)[i] == prev[i]);
            }
        }
    }
    proof {
        lemma_pow10_mono((k - from) as nat, 18);
    }
    Some(v)
}

/// Position of the last `.` in the first `i` characters of `s`.
fn last_dot(s: &str, n: usize) -> (r: Option<usize>)
    requires
        n == s@.len(),
    ensures
        match r {
            Some(d) => d < n && last_dot_before(s@, n as int) == d,
            None => last_dot_before(s@, n as int) == -1,
        },
{
    let mut i: usize = n;
    while i > 0
        invariant
            i <= n,
            n == s@.len(),
            last_dot_before(s@, n as int) == last_dot_before(s@, i as int),
        decreases i,
    {
        if s.get_char(i - 1) == '.' {
            return Some(i - 1);
        }
        i = i - 1;
    }
    None
}

/// A file name without its extension.
pub fn file_stem(name: &str) -> (r: String)
    ensures
        r@ == stem(name@),
{
    let n = name.unicode_len();
    match last_dot(name, n) {
        Some(d) => String::from_str(name.substring_char(0, d)),
        None => String::from_str(name),
    }
}

/// Reads an integer: an optional `-` and 1 to 18 digits.
pub fn parse_integer_exec(s: &str) -> (r: Option<i64>)
    ensures
        r is Some <==> parse_integer(s@) is Some,
        r matches Some(v) ==> v == parse_integer(s@)->0,
{
    let n = s.unicode_len();
    let neg = n > 0 && s.get_char(0) == '-';
    let from: usize = if neg {
        1
    } else {
        0
    };
    assert(s@.subrange(from as int, n as int) =~= if neg {
        s@.skip(1)
    } else {
        s@
    });
    match parse_digits(s, from, n) {
        Some(v) => if neg {
            Some(-v)
        } else {
            Some(v)
        },
        None => None,
    }
}

/// Position of the first `.` of `s` from `from` on, or `n`.
fn first_dot(s: &str, n: usize, from: usize) -> (r: usize)
    requires
        n == s@.len(),
        from <= n,
    ensures
        from <= r <= n,
        r == from + first_dot_from(s@.skip(from as int), 0),
{
    let mut i: usize = from;
    while i < n
        invariant
            from <= i <= n,
            n == s@.len(),
            first_dot_from(s@.skip(from as int), 0) == first_dot_from(
                s@.skip(from as int),
                i - from,
            ),
        decreases n - i,
    {
        if s.get_char(i) == '.' {
            assert(s@.skip(from as int)[i - from] == '.');
            return i;
        }
        assert(s@.skip(from as int)[i - from] == s@[i as int]);
        i = i + 1;
    }
    i
}

/// Whether `s[start..]` is all digits, and whether one of its characters is not `0`.
fn scan_fraction(s: &str, n: usize, start: usize) -> (r: (bool, bool))
    requires
        n == s@.len(),
        start <= n,
    ensures
        r.0 == all_digits(s@.subrange(start as int, n as int)),
        r.1 == has_nonzero(s@.subrange(start as int, n as int)),
{
    let mut frac_ok = true;
    let mut frac_nonzero = false;
    let mut k: usize = start;
    while k < n
        invariant
            start <= k <= n,
            n == s@.len(),
            frac_ok == all_digits(s@.subrange(start as int, k as int)),
            frac_nonzero == exists|i: int| start <= i < k && s@[i] != '0',
        decreases n - k,
    {
        let c = s.get_char(k);
        let u = c as u32;
        let ghost prev = s@.subrange(start as int, k as int);
        if u < 48 || u > 57 {
            frac_ok = false;
        }
        if c != '0' {
            frac_nonzero = true;
        }
        k = k + 1;
        assert(s@.subrange(start as int, k as int) =~= prev.push(c));
        assert(frac_ok == all_digits(s@.subrange(start as int, k as int))) by {
            if frac_ok {
                assert forall|i: int| 0 <= i < k - start implies is_digit(
                    #[trigger] s@.subrange(start as int, k as int)[i],
                ) by {
                    if i < k - start - 1 {
                        assert(s@.subrange(start as int, k as int)[i] == prev[i]);
                    }
                }
            } else if all_digits(s@.subrange(start as int, k as int)) {
                assert forall|i: int| 0 <= i < prev.len() implies is_digit(#[trigger] prev[i]) by {
                    assert(s@.subrange(start as int, k as int)[i] == prev[i]);
                }
                assert(is_digit(s@.subrange(start as int, k as int)[k - start - 1]));
            }
        }
    }
    let ghost fp = s@.subrange(start as int, n as int);
    assert(frac_nonzero == exists|i: int| 0 <= i < fp.len() && fp[i] != '0') by {
        if frac_nonzero {
            let i = choose|i: int| start <= i < n && s@[i] != '0';
            assert(fp[i - start] == s@[i]);
        }
        if exists|i: int| 0 <= i < fp.len() && fp[i] != '0' {
            let i = choose|i: int| 0 <= i < fp.len() && fp[i] != '0';
            assert(fp[i] == s@[start + i]);
        }
    }
    (frac_ok, frac_nonzero)
}

/// Reads a decimal number and rounds it down to an integer.
pub fn parse_floor_exec(s: &str) -> (r: Option<i64>)
    ensures
        r is Some <==> parse_floor(s@) is Some,
        r matches Some(v) ==> v == parse_floor(s@)->0,
{
    let n = s.unicode_len();
    let neg = n > 0 && s.get_char(0) == '-';
    let from: usize = if neg {
        1
    } else {
        0
    };
    let ghost body = if neg {
        s@.skip(1)
    } else {
        s@
    };
    assert(s@.skip(from as int) =~= body);
    let dot = first_dot(s, n, from);
    let ghost d = first_dot_from(body, 0);
    assert(body.take(d) =~= s@.subrange(from as int, dot as int));
    let ip = parse_digits(s, from, dot);
    let start: usize = if dot < n {
        dot + 1
    } else {
        n
    };
    let ghost fp = if d < body.len() {
        body.skip(d + 1)
    } else {
        Seq::<char>::empty()
    };
    assert(fp =~= s@.subrange(start as int, n as int));
    let (frac_ok, frac_nonzero) = scan_fraction(s, n, start);
    assert(frac_nonzero == has_nonzero(fp));
    assert(frac_ok == all_digits(fp));
    assert(ip matches Some(v) ==> v == digits_value(body.take(d)));
    if !frac_ok {
        return None;
    }
    let r = match ip {
        None => None,
        Some(v) => if !neg {
            Some(v)
        } else if frac_nonzero {
            Some(-v - 1)
        } else {
            Some(-v)
        },
    };
    proof {
        let sp = parse_floor(s@);
        if r is Some {
            assert(sp is Some);
            if !neg {
                assert(sp->0 == digits_value(body.take(d)));
            } else if frac_nonzero {
                assert(sp->0 == -digits_value(body.take(d)) - 1);
            } else {
                assert(sp->0 == -digits_value(body.take(d)));
            }
        }
    }
    r
}

/// Whether two strings are equal up to ASCII letter case.
pub fn eq_ignore_case_exec(a: &str, b: &str) -> (r: bool)
    ensures
        r == eq_ignore_case(a@, b@),
{
    let n = a.unicode_len();
    if n != b.unicode_len() {
        return false;
    }
    let mut i: usize = 0;
    while i < n
        invariant
            n == a@.len(),
            n == b@.len(),
            i <= n,
            forall|k: int| 0 <= k < i ==> ascii_fold(#[trigger] a@[k]) == ascii_fold(b@[k]),
        decreases n - i,
    {
        let x = a.get_char(i) as u32;
        let y = b.get_char(i) as u32;
        let fx = if 65 <= x && x <= 90 {
            x + 32
        } else {
            x
        };
        let fy = if 65 <= y && y <= 90 {
            y + 32
        } else {
            y
        };
        if fx != fy {
            return false;
        }
        i = i + 1;
    }
    true
}

/// The file names as character sequences.
pub open spec fn names_view(names: Seq<String>) -> Seq<Seq<char>> {
    names.map_values(|n: String| n@)
}

/// Picks the image of a conditional image element among the file names of its cache
/// directory: for a numeric value the nearest-lower bucket, for a text value the name equal to
/// it up to case. `None` when nothing matches; the element then renders blank.
pub fn select_conditional_image(names: &Vec<String>, sensor_value: &str, sensor_type: SensorType) -> (r:
    Option<usize>)
    ensures
        match r {
            Some(i) => i < names@.len() && selected_image(names_view(names@), sensor_value@, sensor_type)
                == Some(i as int),
            None => selected_image(names_view(names@), sensor_value@, sensor_type) is None,
        },
{
    let ghost nv = names_view(names@);
    match sensor_type {
        SensorType::Number => {
            let v = match parse_floor_exec(sensor_value) {
                Some(v) => v,
                None => {
                    return None;
                },
            };
            let mut best: Option<(i64, usize)> = None;
            let mut i: usize = 0;
            while i < names.len()
                invariant
                    i <= names@.len(),
                    nv == names_view(names@),
                    match best {
                        Some((b, idx)) => best_bucket(nv, v as int, i as int) == Some(idx as int)
                            && idx < i && parse_integer(stem(nv[idx as int])) == Some(b as int),
                        None => best_bucket(nv, v as int, i as int) is None,
                    },
                decreases names@.len() - i,
            {
                assert(nv[i as int] == names@[i as int]@);
                let st = file_stem(names[i].as_str());
                match parse_integer_exec(st.as_str()) {
                    Some(b) => {
                        let better = match best {
                            None => true,
                            Some((pb, _)) => b > pb,
                        };
                        if b <= v && better {
                            best = Some((b, i));
                        }
                    },
                    None => {},
                }
                i = i + 1;
            }
            match best {
                Some((_, idx)) => Some(idx),
                None => None,
            }
        },
        SensorType::Text => {
            assert(selected_image(nv, sensor_value@, sensor_type) == text_match_from(
                nv,
                sensor_value@,
                0,
            ));
            let mut i: usize = 0;
            while i < names.len()
                invariant
                    i <= names@.len(),
                    nv == names_view(names@),
                    text_match_from(nv, sensor_value@, 0) == text_match_from(
                        nv,
                        sensor_value@,
                        i as int,
                    ),
                    selected_image(nv, sensor_value@, sensor_type) == text_match_from(
                        nv,
                        sensor_value@,
                        0,
                    ),
                decreases names@.len() - i,
            {
                assert(nv[i as int] == names@[i as int]@);
                let st = file_stem(names[i].as_str());
                if eq_ignore_case_exec(st.as_str(), sensor_value) {
                    assert(eq_ignore_case(stem(nv[i as int]), sensor_value@));
                    assert(text_match_from(nv, sensor_value@, i as int) == Some(i as int));
                    return Some(i);
                }
                i = i + 1;
            }
            None
        },
    }
}

} // verus!
