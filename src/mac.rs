use vstd::prelude::*;

verus! {

/// Value of a hexadecimal digit, or -1 for any other character.
pub open spec fn hex_value(c: char) -> int {
    let u = c as u32;
    if 48 <= u <= 57 {
        u - 48
    } else if 97 <= u <= 102 {
        u - 87
    } else if 65 <= u <= 70 {
        u - 55
    } else {
        -1
    }
}

pub open spec fn is_hex_digit(c: char) -> bool {
    hex_value(c) >= 0
}

/// Lower-case character of a digit value in `0..16`.
pub open spec fn hex_char(v: int) -> char {
    seq!['0', '1', '2', '3', '4', '5', '6', '7', '8', '9', 'a', 'b', 'c', 'd', 'e', 'f'][v]
}

/// The values of the hexadecimal digits of `s`, in order; everything else is skipped.
pub open spec fn hex_digits(s: Seq<char>) -> Seq<int>
    decreases s.len(),
{
    if s.len() == 0 {
        Seq::empty()
    } else if is_hex_digit(s.last()) {
        hex_digits(s.drop_last()).push(hex_value(s.last()))
    } else {
        hex_digits(s.drop_last())
    }
}

/// Digits written in lower case, in groups of two separated by `:`.
pub open spec fn grouped(d: Seq<int>) -> Seq<char>
    decreases d.len(),
{
    if d.len() == 0 {
        Seq::empty()
    } else if d.len() > 1 && (d.len() - 1) % 2 == 0 {
        grouped(d.drop_last()) + seq![':', hex_char(d.last())]
    } else {
        grouped(d.drop_last()).push(hex_char(d.last()))
    }
}

/// The normal form of a hardware address: its hex digits, lower case, regrouped as `aa:bb:..`.
pub open spec fn normalized(s: Seq<char>) -> Seq<char> {
    grouped(hex_digits(s))
}

/// ASCII lower case of a character.
pub open spec fn ascii_lower(c: char) -> u32 {
    let u = c as u32;
    if 65 <= u <= 90 {
        (u + 32) as u32
    } else {
        u
    }
}

proof fn lemma_hex_char_value(v: int)
    requires
        0 <= v < 16,
    ensures
        hex_value(hex_char(v)) == v,
        hex_char(v) != ':',
{
    if v == 0 {
    } else if v == 1 {
    } else if v == 2 {
    } else if v == 3 {
    } else if v == 4 {
    } else if v == 5 {
    } else if v == 6 {
    } else if v == 7 {
    } else if v == 8 {
    } else if v == 9 {
    } else if v == 10 {
    } else if v == 11 {
    } else if v == 12 {
    } else if v == 13 {
    } else if v == 14 {
    } else {
    }
}

proof fn lemma_hex_digits_append(a: Seq<char>, b: Seq<char>)
    ensures
        hex_digits(a + b) == hex_digits(a) + hex_digits(b),
    decreases b.len(),
{
    if b.len() == 0 {
        assert(a + b =~= a);
        assert(hex_digits(a) + hex_digits(b) =~= hex_digits(a));
    } else {
        lemma_hex_digits_append(a, b.drop_last());
        assert((a + b).drop_last() =~= a + b.drop_last());
        assert((a + b).last() == b.last());
        if is_hex_digit(b.last()) {
            assert(hex_digits(a) + hex_digits(b) =~= (hex_digits(a) + hex_digits(b.drop_last())).push(
                hex_value(b.last()),
            ));
        }
    }
}

proof fn lemma_digits_in_range(s: Seq<char>)
    ensures
        forall|k: int| 0 <= k < hex_digits(s).len() ==> 0 <= #[trigger] hex_digits(s)[k] < 16,
    decreases s.len(),
{
    if s.len() > 0 {
        lemma_digits_in_range(s.drop_last());
        let prev = hex_digits(s.drop_last());
        if is_hex_digit(s.last()) {
            assert(hex_digits(s) == prev.push(hex_value(s.last())));
            assert forall|k: int| 0 <= k < hex_digits(s).len() implies 0 <= #[trigger] hex_digits(
                s,
            )[k] < 16 by {
                if k < prev.len() {
                    assert(hex_digits(s)[k] == prev[k]);
                }
            }
        }
    }
}

proof fn lemma_digits_of_grouped(d: Seq<int>)
    requires
        forall|k: int| 0 <= k < d.len() ==> 0 <= #[trigger] d[k] < 16,
    ensures
        hex_digits(grouped(d)) == d,
    decreases d.len(),
{
    if d.len() > 0 {
        lemma_digits_of_grouped(d.drop_last());
        lemma_hex_char_value(d.last());
        let c = hex_char(d.last());
        assert(hex_digits(seq![c]) =~= seq![d.last()]) by {
            assert(seq![c].drop_last() =~= Seq::<char>::empty());
            assert(seq![c].last() == c);
            assert(hex_digits(Seq::<char>::empty()) =~= Seq::<int>::empty());
        }
        if d.len() > 1 && (d.len() - 1) % 2 == 0 {
            assert(hex_value(':') == -1);
            assert(hex_digits(seq![':', c]) =~= seq![d.last()]) by {
                assert(seq![':', c].drop_last() =~= seq![':']);
                assert(seq![':', c].last() == c);
                assert(seq![':'].drop_last() =~= Seq::<char>::empty());
                assert(seq![':'].last() == ':');
                assert(!is_hex_digit(':'));
                assert(hex_digits(Seq::<char>::empty()) =~= Seq::<int>::empty());
                assert(hex_digits(seq![':']) =~= Seq::<int>::empty());
            }
            lemma_hex_digits_append(grouped(d.drop_last()), seq![':', c]);
        } else {
            assert(grouped(d.drop_last()).push(c) =~= grouped(d.drop_last()) + seq![c]);
            lemma_hex_digits_append(grouped(d.drop_last()), seq![c]);
        }
        assert(d.drop_last().push(d.last()) =~= d);
    }
}

/// Normalizing a hardware address twice gives what normalizing once gives.
pub proof fn lemma_normalize_idempotent(s: Seq<char>)
    ensures
        normalized(normalized(s)) == normalized(s),
{
    lemma_digits_in_range(s);
    lemma_digits_of_grouped(hex_digits(s));
}

proof fn lemma_lower_same_digit(a: char, b: char)
    requires
        ascii_lower(a) == ascii_lower(b),
    ensures
        hex_value(a) == hex_value(b),
{
}

/// Addresses that differ only in the case of their letters have the same normal form.
pub proof fn lemma_normalize_ignores_case(x: Seq<char>, y: Seq<char>)
    requires
        x.len() == y.len(),
        forall|i: int| 0 <= i < x.len() ==> ascii_lower(#[trigger] x[i]) == ascii_lower(y[i]),
    ensures
        normalized(x) == normalized(y),
    decreases x.len(),
{
    lemma_hex_digits_case(x, y);
}

proof fn lemma_hex_digits_case(x: Seq<char>, y: Seq<char>)
    requires
        x.len() == y.len(),
        forall|i: int| 0 <= i < x.len() ==> ascii_lower(#[trigger] x[i]) == ascii_lower(y[i]),
    ensures
        hex_digits(x) == hex_digits(y),
    decreases x.len(),
{
    if x.len() > 0 {
        assert(ascii_lower(x[x.len() - 1]) == ascii_lower(y[y.len() - 1]));
        lemma_lower_same_digit(x.last(), y.last());
        assert forall|i: int| 0 <= i < x.drop_last().len() implies ascii_lower(
            #[trigger] x.drop_last()[i],
        ) == ascii_lower(y.drop_last()[i]) by {
            assert(ascii_lower(x[i]) == ascii_lower(y[i]));
        }
        lemma_hex_digits_case(x.drop_last(), y.drop_last());
    }
}

/// Value of `c` as a hexadecimal digit, if it is one.
fn hex_digit_value(c: char) -> (r: Option<usize>)
    ensures
        r is Some <==> is_hex_digit(c),
        r is Some ==> r->0 == hex_value(c) && r->0 < 16,
{
    let u = c as u32;
    if 48 <= u && u <= 57 {
        Some((u - 48) as usize)
    } else if 97 <= u && u <= 102 {
        Some((u - 87) as usize)
    } else if 65 <= u && u <= 70 {
        Some((u - 55) as usize)
    } else {
        None
    }
}

/// Normal form of a hardware address: all non-hex characters dropped, letters in lower case,
/// and the digits regrouped in pairs separated by `:` (`AA-BB-CC-11-22-33` becomes
/// `aa:bb:cc:11:22:33`).
pub fn normalize_mac(mac_address: &str) -> (r: String)
    ensures
        r@ == normalized(mac_address@),
{
    let digits = "0123456789abcdef";
    let colon = ":";
    proof {
        reveal_strlit("0123456789abcdef");
        reveal_strlit(":");
    }
    let n = mac_address.unicode_len();
    let mut r = String::new();
    let mut count: usize = 0;
    let mut i: usize = 0;
    while i < n
        invariant
            n == mac_address@.len(),
            i <= n,
            digits@ == seq!['0', '1', '2', '3', '4', '5', '6', '7', '8', '9', 'a', 'b', 'c', 'd', 'e', 'f'],
            colon@ == seq![':'],
            count == hex_digits(mac_address@.take(i as int)).len(),
            count <= i,
            r@ == grouped(hex_digits(mac_address@.take(i as int))),
        decreases n - i,
    {
        let c = mac_address.get_char(i);
        let ghost before = hex_digits(mac_address@.take(i as int));
        assert(mac_address@.take(i + 1).drop_last() =~= mac_address@.take(i as int));
        assert(mac_address@.take(i + 1).last() == c);
        match hex_digit_value(c) {
            Some(v) => {
                assert(before.push(v as int).drop_last() =~= before);
                if count > 0 && count % 2 == 0 {
                    r.append(colon);
                }
                r.append(digits.substring_char(v, v + 1));
                assert(r@ =~= grouped(before.push(v as int)));
                count = count + 1;
            },
            None => {},
        }
        i = i + 1;
    }
    assert(mac_address@.take(n as int) =~= mac_address@);
    r
}

/// Default display name of a newly registered client: `Display ` and the first eight
/// characters of its key.
pub fn default_client_name(key: &str) -> (r: String)
    ensures
        r@ == "Display "@ + key@.take(if key@.len() < 8 { key@.len() as int } else { 8 }),
{
    let n = key.unicode_len();
    let end: usize = if n < 8 {
        n
    } else {
        8
    };
    let mut r = String::from_str("Display ");
    r.append(key.substring_char(0, end));
    r
}

} // verus!
