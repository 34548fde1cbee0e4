//! Text helpers: number rendering, string equality and the byte order on strings.

use vstd::prelude::*;
use vstd::utf8;

verus! {

/// The decimal or hexadecimal digit `d` as a lower case character.
pub open spec fn digit_char(d: nat) -> char {
    if d < 10 {
        ('0' as u32 + d) as char
    } else {
        ('a' as u32 + (d - 10)) as char
    }
}

/// `n` written in base `base`, without leading zeros.
pub open spec fn numeral(n: nat, base: nat) -> Seq<char>
    decreases n,
{
    if base < 2 {
        seq![]
    } else if n < base {
        seq![digit_char(n)]
    } else {
        proof {
            assert(n / base < n) by (nonlinear_arith)
                requires
                    n >= base,
                    base >= 2,
            ;
        }
        numeral(n / base, base).push(digit_char(n % base))
    }
}

/// `n` written in base ten.
pub open spec fn decimal(n: nat) -> Seq<char> {
    numeral(n, 10)
}

/// One digit as a string.
fn digit_text(d: u64) -> (r: &'static str)
    requires
        d < 16,
    ensures
        r@ == seq![digit_char(d as nat)],
{
    proof {
        reveal_strlit("0");
        reveal_strlit("1");
        reveal_strlit("2");
        reveal_strlit("3");
        reveal_strlit("4");
        reveal_strlit("5");
        reveal_strlit("6");
        reveal_strlit("7");
        reveal_strlit("8");
        reveal_strlit("9");
        reveal_strlit("a");
        reveal_strlit("b");
        reveal_strlit("c");
        reveal_strlit("d");
        reveal_strlit("e");
        reveal_strlit("f");
    }
    let r: &'static str = match d {
        0 => "0",
        1 => "1",
        2 => "2",
        3 => "3",
        4 => "4",
        5 => "5",
        6 => "6",
        7 => "7",
        8 => "8",
        9 => "9",
        10 => "a",
        11 => "b",
        12 => "c",
        13 => "d",
        14 => "e",
        _ => "f",
    };
    assert(r@ =~= seq![digit_char(d as nat)]);
    r
}

/// Renders `n` in base `base` (ten or sixteen).
pub fn numeral_text(n: u64, base: u64) -> (r: String)
    requires
        2 <= base <= 16,
    ensures
        r@ == numeral(n as nat, base as nat),
    decreases n,
{
    if n < base {
        String::new().concat(digit_text(n))
    } else {
        assert(n / base < n) by (nonlinear_arith)
            requires
                n >= base,
                base >= 2,
        ;
        let head: String = numeral_text(n / base, base);
        let r: String = head.concat(digit_text(n % base));
        assert(r@ =~= numeral(n as nat, base as nat));
        r
    }
}

/// Renders `n` in base ten.
pub fn decimal_text(n: u64) -> (r: String)
    ensures
        r@ == decimal(n as nat),
{
    numeral_text(n, 10)
}

/// Two strings with the same UTF-8 bytes hold the same characters.
pub proof fn lemma_utf8_injective(a: Seq<char>, b: Seq<char>)
    requires
        utf8::encode_utf8(a) == utf8::encode_utf8(b),
    ensures
        a == b,
{
    utf8::encode_utf8_decode_utf8(a);
    utf8::encode_utf8_decode_utf8(b);
}

/// Whether two strings hold the same characters.
pub fn str_eq(a: &str, b: &str) -> (r: bool)
    ensures
        r == (a@ == b@),
{
    let x: &[u8] = a.as_bytes();
    let y: &[u8] = b.as_bytes();
    if x.len() != y.len() {
        return false;
    }
    let mut i: usize = 0;
    while i < x.len()
        invariant
            i <= x@.len(),
            x@.len() == y@.len(),
            x@ == utf8::encode_utf8(a@),
            y@ == utf8::encode_utf8(b@),
            forall|k: int| 0 <= k < i ==> x@[k] == y@[k],
        decreases x@.len() - i,
    {
        if x[i] != y[i] {
            return false;
        }
        i = i + 1;
    }
    proof {
        assert(x@ =~= y@);
        lemma_utf8_injective(a@, b@);
    }
    true
}

/// Lexicographic order on byte strings: `a` does not come after `b`.
pub open spec fn bytes_le(a: Seq<u8>, b: Seq<u8>) -> bool
    decreases a.len(),
{
    if a.len() == 0 {
        true
    } else if b.len() == 0 {
        false
    } else if a[0] != b[0] {
        a[0] < b[0]
    } else {
        bytes_le(a.drop_first(), b.drop_first())
    }
}

/// Order on strings: lexicographic on their UTF-8 bytes.
pub open spec fn text_le(a: Seq<char>, b: Seq<char>) -> bool {
    bytes_le(utf8::encode_utf8(a), utf8::encode_utf8(b))
}

proof fn lemma_bytes_le_total(a: Seq<u8>, b: Seq<u8>)
    ensures
        bytes_le(a, b) || bytes_le(b, a),
    decreases a.len(),
{
    if a.len() > 0 && b.len() > 0 {
        lemma_bytes_le_total(a.drop_first(), b.drop_first());
    }
}

proof fn lemma_bytes_le_transitive(a: Seq<u8>, b: Seq<u8>, c: Seq<u8>)
    requires
        bytes_le(a, b),
        bytes_le(b, c),
    ensures
        bytes_le(a, c),
    decreases a.len(),
{
    if a.len() > 0 && b.len() > 0 && c.len() > 0 && a[0] == b[0] && b[0] == c[0] {
        lemma_bytes_le_transitive(a.drop_first(), b.drop_first(), c.drop_first());
    }
}

proof fn lemma_bytes_le_antisymmetric(a: Seq<u8>, b: Seq<u8>)
    requires
        bytes_le(a, b),
        bytes_le(b, a),
    ensures
        a == b,
    decreases a.len(),
{
    if a.len() > 0 && b.len() > 0 {
        lemma_bytes_le_antisymmetric(a.drop_first(), b.drop_first());
        assert(a =~= seq![a[0]] + a.drop_first());
        assert(b =~= seq![b[0]] + b.drop_first());
    } else {
        assert(a =~= b);
    }
}

/// The order on strings is a total order.
pub proof fn lemma_text_le_total_order(a: Seq<char>, b: Seq<char>, c: Seq<char>)
    ensures
        text_le(a, a),
        text_le(a, b) || text_le(b, a),
        text_le(a, b) && text_le(b, a) ==> a == b,
        text_le(a, b) && text_le(b, c) ==> text_le(a, c),
{
    lemma_bytes_le_total(utf8::encode_utf8(a), utf8::encode_utf8(a));
    lemma_bytes_le_total(utf8::encode_utf8(a), utf8::encode_utf8(b));
    if text_le(a, b) && text_le(b, a) {
        lemma_bytes_le_antisymmetric(utf8::encode_utf8(a), utf8::encode_utf8(b));
        lemma_utf8_injective(a, b);
    }
    if text_le(a, b) && text_le(b, c) {
        lemma_bytes_le_transitive(utf8::encode_utf8(a), utf8::encode_utf8(b), utf8::encode_utf8(c));
    }
}

/// Whether `a` does not come after `b` in the order on strings.
pub fn str_le(a: &str, b: &str) -> (r: bool)
    ensures
        r == text_le(a@, b@),
{
    let x: &[u8] = a.as_bytes();
    let y: &[u8] = b.as_bytes();
    let mut i: usize = 0;
    assert(x@.skip(0) =~= x@);
    assert(y@.skip(0) =~= y@);
    while i < x.len() && i < y.len()
        invariant
            i <= x@.len(),
            i <= y@.len(),
            x@ == utf8::encode_utf8(a@),
            y@ == utf8::encode_utf8(b@),
            bytes_le(x@, y@) == bytes_le(x@.skip(i as int), y@.skip(i as int)),
        decreases x@.len() - i,
    {
        if x[i] != y[i] {
            return x[i] < y[i];
        }
        assert(x@.skip(i as int).drop_first() =~= x@.skip(i + 1));
        assert(y@.skip(i as int).drop_first() =~= y@.skip(i + 1));
        i = i + 1;
    }
    i == x.len()
}

/// The number that a digit stands for: `0` to `9`, then `a` on.
pub open spec fn digit_number(c: char) -> int {
    if c <= '9' {
        c as int - '0' as int
    } else {
        c as int - 'a' as int + 10
    }
}

/// The number that digits in base `base` stand for, the highest first.
pub open spec fn number_of(s: Seq<char>, base: int) -> int
    decreases s.len(),
{
    if s.len() == 0 {
        0
    } else {
        base * number_of(s.drop_last(), base) + digit_number(s.last())
    }
}

/// A numeral stands for its number, in digits of its base, at least one, and without leading zeros.
pub proof fn lemma_numeral_stands_for_number(n: nat, base: nat)
    requires
        2 <= base <= 16,
    ensures
        number_of(numeral(n, base), base as int) == n,
        numeral(n, base).len() > 0,
        n > 0 ==> numeral(n, base)[0] != '0',
        n == 0 ==> numeral(n, base) == seq!['0'],
        forall|i: int|
            0 <= i < numeral(n, base).len() ==> {
                let c = #[trigger] numeral(n, base)[i];
                &&& '0' <= c <= '9' || 'a' <= c <= 'f'
                &&& 0 <= digit_number(c) < base
            },
    decreases n,
{
    let s = numeral(n, base);
    if n < base {
        assert(s =~= seq![digit_char(n)]);
        assert(number_of(s.drop_last(), base as int) == 0);
        assert(base as int * 0 == 0) by (nonlinear_arith);
    } else {
        assert(0 < n / base < n) by (nonlinear_arith)
            requires
                n >= base,
                base >= 2,
        ;
        assert(n % base < base && base * (n / base) + n % base == n) by (nonlinear_arith)
            requires
                base >= 2,
        ;
        let head = numeral(n / base, base);
        lemma_numeral_stands_for_number(n / base, base);
        assert(s == head.push(digit_char(n % base)));
        assert(s.drop_last() =~= head);
        assert(s[0] == head[0]);
        assert forall|i: int| 0 <= i < s.len() implies {
            let c = #[trigger] s[i];
            &&& '0' <= c <= '9' || 'a' <= c <= 'f'
            &&& 0 <= digit_number(c) < base
        } by {
            if i < head.len() {
                assert(s[i] == head[i]);
            }
        }
    }
}

proof fn lemma_bytes_le_by_first_difference(x: Seq<u8>, y: Seq<u8>, k: int)
    requires
        0 <= k <= x.len(),
        k <= y.len(),
        forall|i: int| 0 <= i < k ==> x[i] == y[i],
    ensures
        k == x.len() ==> bytes_le(x, y),
        k == x.len() && k < y.len() ==> !bytes_le(y, x),
        k < x.len() && k < y.len() && x[k] < y[k] ==> bytes_le(x, y) && !bytes_le(y, x),
    decreases k,
{
    if k > 0 {
        lemma_bytes_le_by_first_difference(x.drop_first(), y.drop_first(), k - 1);
    }
}

/// The first byte in which two strings differ decides their order; where one ends before that, it
/// comes first.
pub proof fn lemma_text_le_by_first_difference(a: Seq<char>, b: Seq<char>, k: int)
    requires
        0 <= k <= utf8::encode_utf8(a).len(),
        k <= utf8::encode_utf8(b).len(),
        forall|i: int| 0 <= i < k ==> utf8::encode_utf8(a)[i] == utf8::encode_utf8(b)[i],
    ensures
        k == utf8::encode_utf8(a).len() ==> text_le(a, b),
        k == utf8::encode_utf8(a).len() && k < utf8::encode_utf8(b).len() ==> !text_le(b, a),
        k < utf8::encode_utf8(a).len() && k < utf8::encode_utf8(b).len() && utf8::encode_utf8(a)[k]
            < utf8::encode_utf8(b)[k] ==> text_le(a, b) && !text_le(b, a),
{
    lemma_bytes_le_by_first_difference(utf8::encode_utf8(a), utf8::encode_utf8(b), k);
}

/// A number that is rendered reads as that number.
pub proof fn lemma_rendered_number_reads_back(n: u64, r: String)
    requires
        call_ensures(decimal_text, (n,), r),
    ensures
        number_of(r@, 10) == n,
        r@.len() > 0,
        n > 0 ==> r@[0] != '0',
{
    lemma_numeral_stands_for_number(n as nat, 10);
}

/// Strings are compared by what they hold.
pub proof fn lemma_comparisons_tell(a: &str, b: &str, same: bool, up: bool, down: bool)
    requires
        call_ensures(str_eq, (a, b), same),
        call_ensures(str_le, (a, b), up),
        call_ensures(str_le, (b, a), down),
    ensures
        same <==> a@ == b@,
        up || down,
        up && down <==> same,
{
    lemma_text_le_total_order(a@, b@, a@);
    lemma_text_le_total_order(b@, a@, b@);
}

/// What is put behind a text is at its end.
pub(crate) proof fn lemma_sum_ends(a: Seq<char>, b: Seq<char>)
    ensures
        b.is_suffix_of(a + b),
{
    assert((a + b).subrange(a.len() as int, (a + b).len() as int) =~= b);
}

} // verus!
