//! Text helpers: decimal rendering, comparison of text by characters,
//! and the byte order in which profile names are listed.

use vstd::prelude::*;

verus! {

/// The character of a decimal digit.
pub open spec fn digit_char(d: nat) -> char {
    (d + 48) as char
}

/// Decimal rendering of a natural number, without leading zeros.
pub open spec fn decimal(n: nat) -> Seq<char>
    decreases n,
{
    if n < 10 {
        seq![digit_char(n)]
    } else {
        decimal(n / 10).push(digit_char(n % 10))
    }
}

fn digit_text(d: u16) -> (s: &'static str)
    requires
        d < 10,
    ensures
        s@ == seq![digit_char(d as nat)],
{
    proof {
        reveal_strlit("0");
        reveal_strlit("1");
        reveal_strlit("2");
        reveal_strlit("3");
        reveal_strlit("4");
        reveal_strlit("5");
        reveal_strlit("6");
        reveal_strlit("7");
        reveal_strlit("8");
        reveal_strlit("9");
    }
    let s = match d {
        0 => "0",
        1 => "1",
        2 => "2",
        3 => "3",
        4 => "4",
        5 => "5",
        6 => "6",
        7 => "7",
        8 => "8",
        _ => "9",
    };
    assert(s@ =~= seq![digit_char(d as nat)]);
    s
}

/// The number that a string of decimal digits denotes.
pub open spec fn digits_value(s: Seq<char>) -> nat
    decreases s.len(),
{
    if s.len() == 0 {
        0
    } else {
        digits_value(s.drop_last()) * 10 + ((s.last() as int - 48) as nat)
    }
}

/// The decimal rendering of `n` is made of digits only, has no leading zero (zero is
/// the single digit `0`), and denotes `n`.
pub proof fn lemma_decimal_denotes(n: nat)
    ensures
        decimal(n).len() >= 1,
        forall|i: int| 0 <= i < decimal(n).len() ==> '0' <= #[trigger] decimal(n)[i] <= '9',
        decimal(n)[0] == '0' ==> n == 0 && decimal(n).len() == 1,
        digits_value(decimal(n)) == n,
    decreases n,
{
    if n >= 10 {
        lemma_decimal_denotes(n / 10);
        let d = decimal(n);
        assert(d.drop_last() == decimal(n / 10));
        assert(d[0] == decimal(n / 10)[0]);
        assert(d.last() == digit_char(n % 10));
        assert(digit_char(n % 10) as int == n % 10 + 48);
        assert((n / 10) * 10 + n % 10 == n) by (nonlinear_arith);
        assert(digits_value(d) == digits_value(d.drop_last()) * 10 + ((d.last() as int - 48) as nat));
    } else {
        assert(decimal(n).drop_last() =~= Seq::<char>::empty());
        assert(digit_char(n) as int == n + 48);
        let d = decimal(n);
        assert(digits_value(d) == digits_value(d.drop_last()) * 10 + ((d.last() as int - 48) as nat));
        assert(digits_value(d.drop_last()) == 0);
    }
}

/// Appends the decimal rendering of `n` to `out`.
pub fn push_decimal(out: &mut String, n: u16)
    ensures
        final(out)@ == old(out)@ + decimal(n as nat),
        digits_value(final(out)@.subrange(old(out)@.len() as int, final(out)@.len() as int)) == n,
    decreases n,
{
    if n >= 10 {
        push_decimal(out, n / 10);
    }
    out.append(digit_text(n % 10));
    proof {
        lemma_decimal_denotes(n as nat);
        assert(out@.subrange(old(out)@.len() as int, out@.len() as int) =~= decimal(n as nat));
        if n >= 10 {
            assert(decimal(n as nat) == decimal((n / 10) as nat).push(digit_char((n % 10) as nat)));
        }
    }
}

} // verus!

verus! {

/// Whether `a` and `b` hold the same characters.
pub fn same_text(a: &str, b: &str) -> (r: bool)
    ensures
        r == (a@ == b@),
{
    let n = a.unicode_len();
    if n != b.unicode_len() {
        return false;
    }
    let mut i: usize = 0;
    while i < n
        invariant
            n == a@.len(),
            n == b@.len(),
            i <= n,
            forall|k: int| 0 <= k < i ==> a@[k] == b@[k],
        decreases n - i,
    {
        if a.get_char(i) != b.get_char(i) {
            return false;
        }
        i = i + 1;
    }
    assert(a@ =~= b@);
    true
}

/// Whether `text` begins with the characters of `prefix`.
pub fn starts_with_text(text: &str, prefix: &str) -> (r: bool)
    ensures
        r == (prefix@.len() <= text@.len() && text@.subrange(0, prefix@.len() as int) == prefix@),
{
    let n = prefix.unicode_len();
    if n > text.unicode_len() {
        return false;
    }
    let mut i: usize = 0;
    while i < n
        invariant
            n == prefix@.len(),
            n <= text@.len(),
            i <= n,
            forall|k: int| 0 <= k < i ==> text@[k] == prefix@[k],
        decreases n - i,
    {
        if text.get_char(i) != prefix.get_char(i) {
            assert(text@.subrange(0, n as int)[i as int] != prefix@[i as int]);
            return false;
        }
        i = i + 1;
    }
    assert(text@.subrange(0, n as int) =~= prefix@);
    true
}

} // verus!

verus! {

/// Lexicographic order on byte strings, as `<=` orders them.
pub open spec fn bytes_le(a: Seq<u8>, b: Seq<u8>) -> bool
    decreases a.len(),
{
    if a.len() == 0 {
        true
    } else if b.len() == 0 {
        false
    } else if a[0] != b[0] {
        a[0] < b[0]
    } else {
        bytes_le(a.drop_first(), b.drop_first())
    }
}

/// The order of text by its UTF-8 bytes: the order in which std sorts `String`s.
pub open spec fn text_le(a: Seq<char>, b: Seq<char>) -> bool {
    bytes_le(vstd::utf8::encode_utf8(a), vstd::utf8::encode_utf8(b))
}

/// The characters of each string of a sequence.
pub open spec fn string_views(s: Seq<String>) -> Seq<Seq<char>> {
    s.map_values(|x: String| x@)
}

/// Every text is ordered before every later one.
pub open spec fn sorted_texts(s: Seq<Seq<char>>) -> bool {
    forall|i: int, j: int| 0 <= i < j < s.len() ==> text_le(#[trigger] s[i], #[trigger] s[j])
}

/// Any two byte strings are ordered one way or the other.
pub proof fn lemma_bytes_le_total(a: Seq<u8>, b: Seq<u8>)
    ensures
        bytes_le(a, b) || bytes_le(b, a),
    decreases a.len(),
{
    if a.len() > 0 && b.len() > 0 && a[0] == b[0] {
        lemma_bytes_le_total(a.drop_first(), b.drop_first());
    }
}

/// The byte order is transitive.
pub proof fn lemma_bytes_le_transitive(a: Seq<u8>, b: Seq<u8>, c: Seq<u8>)
    requires
        bytes_le(a, b),
        bytes_le(b, c),
    ensures
        bytes_le(a, c),
    decreases a.len(),
{
    if a.len() > 0 && b.len() > 0 && c.len() > 0 && a[0] == b[0] && b[0] == c[0] {
        lemma_bytes_le_transitive(a.drop_first(), b.drop_first(), c.drop_first());
    }
}

/// Whether `a` comes no later than `b` in the byte order of their UTF-8 encodings.
pub fn text_le_exec(a: &str, b: &str) -> (r: bool)
    ensures
        r == text_le(a@, b@),
{
    let x = a.as_bytes();
    let y = b.as_bytes();
    let ghost xs = x@;
    let ghost ys = y@;
    let mut i: usize = 0;
    assert(xs.skip(0) =~= xs);
    assert(ys.skip(0) =~= ys);
    loop
        invariant
            xs == x@,
            ys == y@,
            xs == vstd::utf8::encode_utf8(a@),
            ys == vstd::utf8::encode_utf8(b@),
            i <= xs.len(),
            i <= ys.len(),
            bytes_le(xs, ys) == bytes_le(xs.skip(i as int), ys.skip(i as int)),
        decreases xs.len() - i,
    {
        if i == x.len() {
            return true;
        }
        if i == y.len() {
            return false;
        }
        if x[i] != y[i] {
            return x[i] < y[i];
        }
        assert(xs.skip(i as int).drop_first() =~= xs.skip(i + 1));
        assert(ys.skip(i as int).drop_first() =~= ys.skip(i + 1));
        i = i + 1;
    }
}

/// Sorts profile names into the byte order of their text, as `sort` does for `String`s.
pub fn sort_profiles(names: Vec<String>) -> (r: Vec<String>)
    ensures
        sorted_texts(string_views(r@)),
        r@.to_multiset() == names@.to_multiset(),
        names@.no_duplicates() ==> r@.no_duplicates(),
{
    broadcast use vstd::seq_lib::group_to_multiset_ensures;

    let mut out: Vec<String> = Vec::new();
    let n = names.len();
    let mut i: usize = 0;
    assert(names@.subrange(0, 0) =~= Seq::<String>::empty());
    while i < n
        invariant
            n == names.len(),
            i <= n,
            sorted_texts(string_views(out@)),
            out@.to_multiset() == names@.subrange(0, i as int).to_multiset(),
        decreases n - i,
    {
        let x = names[i].clone();
        let mut k: usize = 0;
        while k < out.len()
            invariant
                k <= out.len(),
                forall|j: int| 0 <= j < k ==> text_le(#[trigger] out@[j]@, x@),
            ensures
                k <= out.len(),
                forall|j: int| 0 <= j < k ==> text_le(#[trigger] out@[j]@, x@),
                k < out.len() ==> !text_le(out@[k as int]@, x@),
            decreases out.len() - k,
        {
            if !text_le_exec(out[k].as_str(), x.as_str()) {
                break;
            }
            k = k + 1;
        }
        proof {
            if k < out.len() {
                lemma_bytes_le_total(
                    vstd::utf8::encode_utf8(out@[k as int]@),
                    vstd::utf8::encode_utf8(x@),
                );
                assert forall|j: int| k <= j < out@.len() implies text_le(x@, #[trigger] out@[j]@) by {
                    if j > k {
                        assert(string_views(out@)[k as int] == out@[k as int]@);
                        assert(string_views(out@)[j] == out@[j]@);
                        lemma_bytes_le_transitive(
                            vstd::utf8::encode_utf8(x@),
                            vstd::utf8::encode_utf8(out@[k as int]@),
                            vstd::utf8::encode_utf8(out@[j]@),
                        );
                    }
                }
            }
        }
        let ghost prev = out@;
        out.insert(k, x);
        proof {
            assert forall|p: int, q: int| 0 <= p < q < out@.len() implies text_le(
                #[trigger] string_views(out@)[p],
                #[trigger] string_views(out@)[q],
            ) by {
                if q < k {
                    assert(string_views(prev)[p] == string_views(out@)[p]);
                    assert(string_views(prev)[q] == string_views(out@)[q]);
                } else if q == k {
                    assert(string_views(out@)[p] == prev[p]@);
                } else if p == k {
                    assert(string_views(out@)[q] == prev[q - 1]@);
                } else if p < k {
                    assert(string_views(out@)[p] == string_views(prev)[p]);
                    assert(string_views(out@)[q] == string_views(prev)[q - 1]);
                } else {
                    assert(string_views(out@)[p] == string_views(prev)[p - 1]);
                    assert(string_views(out@)[q] == string_views(prev)[q - 1]);
                }
            }
            vstd::seq_lib::to_multiset_insert(prev, k as int, names@[i as int]);
            assert(names@.subrange(0, i + 1) =~= names@.subrange(0, i as int).push(names@[i as int]));
            vstd::seq_lib::to_multiset_build(names@.subrange(0, i as int), names@[i as int]);
            assert(out@.to_multiset() == names@.subrange(0, i + 1).to_multiset());
        }
        i = i + 1;
    }
    assert(names@.subrange(0, n as int) =~= names@);
    proof {
        if names@.no_duplicates() {
            names@.lemma_multiset_has_no_duplicates();
            out@.lemma_multiset_has_no_duplicates_conv();
        }
    }
    out
}

} // verus!

verus! {

/// The byte order is lexicographic: `a` comes no later than `b` exactly when `a` is a
/// prefix of `b`, or at the first byte where they differ `a` has the smaller byte.
pub proof fn lemma_bytes_le_is_lexicographic(a: Seq<u8>, b: Seq<u8>)
    ensures
        bytes_le(a, b) <==> (a.len() <= b.len() && forall|j: int| 0 <= j < a.len() ==> a[j] == b[j])
            || exists|i: int|
            0 <= i < a.len() && i < b.len() && a[i] < b[i] && forall|j: int| 0 <= j < i ==> a[j] == b[j],
    decreases a.len(),
{
    if a.len() > 0 && b.len() > 0 {
        let a1 = a.drop_first();
        let b1 = b.drop_first();
        lemma_bytes_le_is_lexicographic(a1, b1);
        if a[0] == b[0] {
            if bytes_le(a, b) {
                if a1.len() <= b1.len() && forall|j: int| 0 <= j < a1.len() ==> a1[j] == b1[j] {
                    assert forall|j: int| 0 <= j < a.len() implies a[j] == b[j] by {
                        if j > 0 {
                            assert(a1[j - 1] == b1[j - 1]);
                        }
                    }
                } else {
                    let i = choose|i: int|
                        0 <= i < a1.len() && i < b1.len() && a1[i] < b1[i] && forall|j: int|
                            0 <= j < i ==> a1[j] == b1[j];
                    assert(a[i + 1] < b[i + 1]);
                    assert forall|j: int| 0 <= j < i + 1 implies a[j] == b[j] by {
                        if j > 0 {
                            assert(a1[j - 1] == b1[j - 1]);
                        }
                    }
                }
            } else {
                if a.len() <= b.len() && forall|j: int| 0 <= j < a.len() ==> a[j] == b[j] {
                    assert forall|j: int| 0 <= j < a1.len() implies a1[j] == b1[j] by {
                        assert(a[j + 1] == b[j + 1]);
                    }
                }
                if exists|i: int|
                    0 <= i < a.len() && i < b.len() && a[i] < b[i] && forall|j: int| 0 <= j < i ==> a[j] == b[j] {
                    let i = choose|i: int|
                        0 <= i < a.len() && i < b.len() && a[i] < b[i] && forall|j: int| 0 <= j < i ==> a[j] == b[j];
                    assert(i > 0);
                    assert(a1[i - 1] < b1[i - 1]);
                    assert forall|j: int| 0 <= j < i - 1 implies a1[j] == b1[j] by {
                        assert(a[j + 1] == b[j + 1]);
                    }
                }
            }
        } else {
            if !(a[0] < b[0]) {
                if exists|i: int|
                    0 <= i < a.len() && i < b.len() && a[i] < b[i] && forall|j: int| 0 <= j < i ==> a[j] == b[j] {
                    let i = choose|i: int|
                        0 <= i < a.len() && i < b.len() && a[i] < b[i] && forall|j: int| 0 <= j < i ==> a[j] == b[j];
                    if i > 0 {
                        assert(a[0] == b[0]);
                    }
                }
            } else {
                assert(0 <= 0 < a.len() && 0 < b.len() && a[0] < b[0]);
            }
        }
    } else if a.len() > 0 {
        assert(!(a.len() <= b.len()));
    }
}

} // verus!
