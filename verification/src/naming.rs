//! Naming scheme for temporary keys.
//!
//! Every interior node of an expression tree is computed into a temporary
//! key named `stal:<index>`, where `<index>` is the decimal position of the
//! temporary in the order of allocation, starting at 0.

use vstd::prelude::*;

verus! {

use vstd::string::StrSliceExecFns;
use vstd::string::StringExecFns;
use vstd::utf8::is_ascii_chars;
use vstd::utf8::is_ascii_chars_encode_utf8;

/// The decimal digit `d` (0 to 9) as a character.
pub open spec fn digit_char(d: nat) -> char {
    if d == 0 {
        '0'
    } else if d == 1 {
        '1'
    } else if d == 2 {
        '2'
    } else if d == 3 {
        '3'
    } else if d == 4 {
        '4'
    } else if d == 5 {
        '5'
    } else if d == 6 {
        '6'
    } else if d == 7 {
        '7'
    } else if d == 8 {
        '8'
    } else {
        '9'
    }
}

/// The decimal digits of `n`, most significant first, without leading zeros
/// (a single `'0'` for zero itself).
pub open spec fn decimal_chars(n: nat) -> Seq<char>
    decreases n,
{
    if n < 10 {
        seq![digit_char(n)]
    } else {
        decimal_chars(n / 10).push(digit_char(n % 10))
    }
}

/// The name of temporary number `n`: the reserved namespace prefix followed
/// by the decimal index.
pub open spec fn temp_id_chars(n: nat) -> Seq<char> {
    "stal:"@ + decimal_chars(n)
}

/// The bytes of an ASCII character sequence, one byte per character.
pub open spec fn ascii_bytes(cs: Seq<char>) -> Seq<u8> {
    Seq::new(cs.len(), |i: int| cs[i] as u8)
}

/// The raw key bytes of temporary number `n`.
pub open spec fn temp_key_bytes(n: nat) -> Seq<u8> {
    ascii_bytes(temp_id_chars(n))
}

/// The names of `count` temporaries allocated from number `next` on, in
/// allocation order.
pub open spec fn temp_ids(next: nat, count: nat) -> Seq<Seq<char>> {
    Seq::new(count, |i: int| temp_id_chars((next + i) as nat))
}

/// Every decimal digit sequence is ASCII.
pub proof fn lemma_decimal_chars_ascii(n: nat)
    ensures
        is_ascii_chars(decimal_chars(n)),
    decreases n,
{
    if n < 10 {
        assert(forall|i: int|
            0 <= i < decimal_chars(n).len() ==> '\0' <= #[trigger] decimal_chars(n)[i]
                <= '\u{7f}');
    } else {
        lemma_decimal_chars_ascii(n / 10);
        let s = decimal_chars(n);
        let p = decimal_chars(n / 10);
        assert forall|i: int| 0 <= i < s.len() implies '\0' <= #[trigger] s[i] <= '\u{7f}' by {
            if i < p.len() {
                assert(s[i] == p[i]);
            } else {
                assert(s[i] == digit_char(n % 10));
            }
        }
    }
}

/// Every temporary name is ASCII.
pub proof fn lemma_temp_id_ascii(n: nat)
    ensures
        is_ascii_chars(temp_id_chars(n)),
{
    lemma_decimal_chars_ascii(n);
    reveal_strlit("stal:");
    let s = temp_id_chars(n);
    assert forall|i: int| 0 <= i < s.len() implies '\0' <= #[trigger] s[i] <= '\u{7f}' by {
        if i < "stal:"@.len() {
            assert(s[i] == "stal:"@[i]);
        } else {
            assert(s[i] == decimal_chars(n)[i - "stal:"@.len()]);
        }
    }
}

/// Decimal digit sequences never start with a zero unless they are the
/// single digit of zero itself; in particular they are never empty.
pub proof fn lemma_decimal_chars_len(n: nat)
    ensures
        decimal_chars(n).len() >= 1,
        n >= 10 ==> decimal_chars(n).len() >= 2,
    decreases n,
{
    if n >= 10 {
        lemma_decimal_chars_len(n / 10);
    }
}

/// Two different numbers have different digit sequences.
pub proof fn lemma_decimal_chars_injective(m: nat, n: nat)
    requires
        decimal_chars(m) == decimal_chars(n),
    ensures
        m == n,
    decreases m,
{
    lemma_decimal_chars_len(m);
    lemma_decimal_chars_len(n);
    if m < 10 && n < 10 {
        assert(decimal_chars(m)[0] == digit_char(m));
        assert(decimal_chars(n)[0] == digit_char(n));
    } else if m >= 10 && n >= 10 {
        let sm = decimal_chars(m);
        let sn = decimal_chars(n);
        assert(sm.last() == digit_char(m % 10));
        assert(sn.last() == digit_char(n % 10));
        assert(digit_char(m % 10) == digit_char(n % 10));
        assert(m % 10 == n % 10);
        assert(sm.drop_last() =~= decimal_chars(m / 10));
        assert(sn.drop_last() =~= decimal_chars(n / 10));
        assert(sm.drop_last() =~= sn.drop_last());
        lemma_decimal_chars_injective(m / 10, n / 10);
    } else {
        assert(decimal_chars(m).len() != decimal_chars(n).len());
    }
}

/// Two different temporary numbers have different names.
pub proof fn lemma_temp_id_injective(m: nat, n: nat)
    requires
        temp_id_chars(m) == temp_id_chars(n),
    ensures
        m == n,
{
    let p = "stal:"@.len() as int;
    assert(decimal_chars(m) =~= temp_id_chars(m).subrange(p, temp_id_chars(m).len() as int));
    assert(decimal_chars(n) =~= temp_id_chars(n).subrange(p, temp_id_chars(n).len() as int));
    lemma_decimal_chars_injective(m, n);
}

/// Two different temporary numbers have different key bytes.
pub proof fn lemma_temp_key_injective(m: nat, n: nat)
    requires
        temp_key_bytes(m) == temp_key_bytes(n),
    ensures
        m == n,
{
    lemma_temp_id_ascii(m);
    lemma_temp_id_ascii(n);
    let cm = temp_id_chars(m);
    let cn = temp_id_chars(n);
    assert(ascii_bytes(cm).len() == ascii_bytes(cn).len());
    assert forall|i: int| 0 <= i < cm.len() implies cm[i] == cn[i] by {
        assert(ascii_bytes(cm)[i] == ascii_bytes(cn)[i]);
        assert(cm[i] as u8 == cn[i] as u8);
        assert('\0' <= cm[i] <= '\u{7f}');
        assert('\0' <= cn[i] <= '\u{7f}');
        assert((cm[i] as nat) < 128 && (cn[i] as nat) < 128);
    }
    assert(cm =~= cn);
    lemma_temp_id_injective(m, n);
}

/// Splitting a run of temporary names in two.
pub proof fn lemma_temp_ids_concat(next: nat, a: nat, b: nat)
    ensures
        temp_ids(next, a) + temp_ids(next + a, b) == temp_ids(next, a + b),
{
    assert(temp_ids(next, a) + temp_ids(next + a, b) =~= temp_ids(next, a + b));
}

/// The decimal digit `d` (0 to 9) as a string slice.
fn digit_str(d: usize) -> (r: &'static str)
    requires
        d < 10,
    ensures
        r@ == seq![digit_char(d as nat)],
{
    let r = match d {
        0 => "0",
        1 => "1",
        2 => "2",
        3 => "3",
        4 => "4",
        5 => "5",
        6 => "6",
        7 => "7",
        8 => "8",
        _ => "9",
    };
    proof {
        reveal_strlit("0");
        reveal_strlit("1");
        reveal_strlit("2");
        reveal_strlit("3");
        reveal_strlit("4");
        reveal_strlit("5");
        reveal_strlit("6");
        reveal_strlit("7");
        reveal_strlit("8");
        reveal_strlit("9");
        assert(r@ =~= seq![digit_char(d as nat)]);
    }
    r
}

/// Appends the decimal digits of `n` to `s`, most significant first.
fn push_decimal(s: &mut String, n: usize)
    ensures
        final(s)@ == old(s)@ + decimal_chars(n as nat),
    decreases n,
{
    if n >= 10 {
        push_decimal(s, n / 10);
    }
    s.append(digit_str(n % 10));
    proof {
        assert(s@ =~= old(s)@ + decimal_chars(n as nat));
    }
}

/// Builds the name of temporary number `n`.
pub(crate) fn temp_id_string(n: usize) -> (r: String)
    ensures
        r@ == temp_id_chars(n as nat),
{
    let mut s = String::from_str("stal:");
    push_decimal(&mut s, n);
    s
}

/// The bytes of an ASCII string slice.
pub(crate) fn str_ascii_bytes(s: &str) -> (r: Vec<u8>)
    requires
        is_ascii_chars(s@),
    ensures
        r@ == ascii_bytes(s@),
{
    proof {
        is_ascii_chars_encode_utf8(s@);
    }
    let r = s.as_bytes_vec();
    proof {
        assert(r@ =~= ascii_bytes(s@));
    }
    r
}

} // verus!
