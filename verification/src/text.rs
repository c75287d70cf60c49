//! Comparisons of text, and the identifiers that schedules are stored under.

use vstd::prelude::*;

use crate::calendar::digit_char;

verus! {

/// `a` comes before `b` in the order of Rust's `str` comparison: the first
/// differing character decides by its code point, and a proper prefix comes
/// first. (UTF-8 keeps code point order, so this is the byte order too.)
pub open spec fn text_before(a: Seq<char>, b: Seq<char>) -> bool
    decreases a.len(),
{
    if a.len() == 0 {
        b.len() > 0
    } else if b.len() == 0 {
        false
    } else if a[0] != b[0] {
        (a[0] as int) < (b[0] as int)
    } else {
        text_before(a.drop_first(), b.drop_first())
    }
}

/// At the first position where two texts differ, the smaller character
/// decides their order.
pub proof fn law_text_order_first_difference(a: Seq<char>, b: Seq<char>, i: int)
    requires
        0 <= i < a.len(),
        i < b.len(),
        a.subrange(0, i) == b.subrange(0, i),
        a[i] != b[i],
    ensures
        text_before(a, b) <==> (a[i] as int) < (b[i] as int),
    decreases i,
{
    if i > 0 {
        assert(a[0] == a.subrange(0, i)[0]);
        assert(b[0] == b.subrange(0, i)[0]);
        assert(a.drop_first().subrange(0, i - 1) =~= b.drop_first().subrange(0, i - 1)) by {
            assert forall|k: int| 0 <= k < i - 1 implies a.drop_first()[k] == b.drop_first()[k] by {
                assert(a[k + 1] == a.subrange(0, i)[k + 1]);
                assert(b[k + 1] == b.subrange(0, i)[k + 1]);
            }
        }
        law_text_order_first_difference(a.drop_first(), b.drop_first(), i - 1);
    }
}

/// A proper prefix comes before the longer text, and no text comes before
/// itself.
pub proof fn law_text_order_prefix(a: Seq<char>, b: Seq<char>)
    requires
        a.len() <= b.len(),
        b.subrange(0, a.len() as int) == a,
    ensures
        text_before(a, b) <==> a.len() < b.len(),
    decreases a.len(),
{
    if a.len() > 0 {
        assert(a[0] == b.subrange(0, a.len() as int)[0]);
        assert(b.drop_first().subrange(0, a.drop_first().len() as int) =~= a.drop_first()) by {
            assert forall|k: int| 0 <= k < a.len() - 1 implies b.drop_first()[k] == a.drop_first()[k] by {
                assert(b[k + 1] == b.subrange(0, a.len() as int)[k + 1]);
            }
        }
        law_text_order_prefix(a.drop_first(), b.drop_first());
    }
}

/// Whether two pieces of text are equal.
pub fn text_eq(a: &str, b: &str) -> (r: bool)
    ensures
        r == (a@ == b@),
{
    let x = a.to_owned();
    let y = b.to_owned();
    x == y
}

proof fn lemma_text_before_step(a: Seq<char>, b: Seq<char>, i: int)
    requires
        0 <= i < a.len(),
        i < b.len(),
        a[i] == b[i],
    ensures
        text_before(a.skip(i), b.skip(i)) == text_before(a.skip(i + 1), b.skip(i + 1)),
{
    assert(a.skip(i).drop_first() =~= a.skip(i + 1));
    assert(b.skip(i).drop_first() =~= b.skip(i + 1));
}

/// Whether `a` comes before `b` in the order of Rust's `str` comparison.
pub fn text_is_before(a: &str, b: &str) -> (r: bool)
    ensures
        r == text_before(a@, b@),
{
    let la = a.unicode_len();
    let lb = b.unicode_len();
    let mut i: usize = 0;
    assert(a@.skip(0) =~= a@);
    assert(b@.skip(0) =~= b@);
    while i < la && i < lb
        invariant
            la == a@.len(),
            lb == b@.len(),
            i <= la,
            i <= lb,
            text_before(a@, b@) == text_before(a@.skip(i as int), b@.skip(i as int)),
        decreases la - i,
    {
        let ca = a.get_char(i);
        let cb = b.get_char(i);
        if ca != cb {
            assert(a@.skip(i as int)[0] == ca);
            assert(b@.skip(i as int)[0] == cb);
            return (ca as u32) < (cb as u32);
        }
        proof {
            lemma_text_before_step(a@, b@, i as int);
        }
        i = i + 1;
    }
    assert(a@.skip(i as int).len() == la - i);
    assert(b@.skip(i as int).len() == lb - i);
    i == la && i < lb
}

/// Whether some text of `list` equals `s`.
pub fn list_contains_text(list: &Vec<String>, s: &str) -> (r: bool)
    ensures
        r == (exists|i: int| 0 <= i < list@.len() && #[trigger] list@[i]@ == s@),
{
    let t = s.to_owned();
    let mut i: usize = 0;
    while i < list.len()
        invariant
            i <= list@.len(),
            t@ == s@,
            forall|j: int| 0 <= j < i ==> #[trigger] list@[j]@ != s@,
        decreases list@.len() - i,
    {
        if list[i] == t {
            return true;
        }
        i = i + 1;
    }
    false
}

/// A lower-case hexadecimal digit.
pub open spec fn is_lower_hex_char(c: char) -> bool {
    (48 <= (c as int) <= 57) || (97 <= (c as int) <= 102)
}

/// The hyphenated lower-case text of a random (version 4) UUID, such as
/// `67e55044-10b1-426f-9247-bb680e5fe0c8`: 36 characters, hyphens at
/// positions 8, 13, 18 and 23, the version digit `4` at 14, a variant digit
/// from `8`, `9`, `a`, `b` at 19, and hexadecimal digits elsewhere.
pub open spec fn is_uuid_v4_text(s: Seq<char>) -> bool {
    &&& s.len() == 36
    &&& forall|i: int|
        0 <= i < 36 ==> if i == 8 || i == 13 || i == 18 || i == 23 {
            #[trigger] s[i] == '-'
        } else {
            is_lower_hex_char(s[i])
        }
    &&& s[14] == '4'
    &&& (s[19] == '8' || s[19] == '9' || s[19] == 'a' || s[19] == 'b')
}

/// Calls uuid's `Uuid::new_v4` and its `Display`: the contract claims that
/// the text is a hyphenated lower-case version 4 UUID. The value is random,
/// so nothing more is said of it. (`new_v4` panics if the operating
/// system's random source fails.)
#[verifier::external_body]
pub(crate) fn new_uuid_v4_text() -> (s: String)
    ensures
        is_uuid_v4_text(s@),
{
    uuid::Uuid::new_v4().to_string()
}

/// Ten to the power `w`.
pub open spec fn pow10(w: nat) -> nat
    decreases w,
{
    if w == 0 {
        1
    } else {
        10 * pow10((w - 1) as nat)
    }
}

/// The last `w` decimal digits of `n`, most significant first.
pub open spec fn decimal_digits(n: nat, w: nat) -> Seq<char>
    decreases w,
{
    if w == 0 {
        Seq::empty()
    } else {
        decimal_digits(n / 10, (w - 1) as nat).push(digit_char((n % 10) as int))
    }
}

/// The UUID-shaped text that numbers `n` among the identifiers made up when
/// a random one is already taken: twenty decimal digits of `n` in the
/// version-4 layout `dddddddd-dddd-4000-8000-dddddddd0000`.
pub open spec fn numbered_uuid_text(n: nat) -> Seq<char> {
    let d = decimal_digits(n, 20);
    d.subrange(0, 8) + seq!['-'] + d.subrange(8, 12) + seq!['-', '4', '0', '0', '0', '-', '8', '0', '0', '0', '-']
        + d.subrange(12, 20) + seq!['0', '0', '0', '0']
}

proof fn lemma_decimal_digits_shape(n: nat, w: nat)
    ensures
        decimal_digits(n, w).len() == w,
        forall|i: int| 0 <= i < w ==> 48 <= (#[trigger] decimal_digits(n, w)[i] as int) <= 57,
    decreases w,
{
    if w > 0 {
        lemma_decimal_digits_shape(n / 10, (w - 1) as nat);
        let k = (n % 10) as int;
        assert(digit_char(k) as int == 48 + k);
        let d = decimal_digits(n, w);
        assert forall|i: int| 0 <= i < w implies 48 <= (#[trigger] d[i] as int) <= 57 by {
            if i < w - 1 {
                assert(d[i] == decimal_digits(n / 10, (w - 1) as nat)[i]);
            }
        }
    }
}

proof fn lemma_decimal_digits_injective(a: nat, b: nat, w: nat)
    requires
        a < pow10(w),
        b < pow10(w),
        decimal_digits(a, w) == decimal_digits(b, w),
    ensures
        a == b,
    decreases w,
{
    if w > 0 {
        let da = decimal_digits(a, w);
        let db = decimal_digits(b, w);
        assert(da.last() == db.last());
        let ka = (a % 10) as int;
        let kb = (b % 10) as int;
        assert(digit_char(ka) as int == 48 + ka);
        assert(digit_char(kb) as int == 48 + kb);
        assert(ka == kb);
        assert(da.drop_last() =~= decimal_digits(a / 10, (w - 1) as nat));
        assert(db.drop_last() =~= decimal_digits(b / 10, (w - 1) as nat));
        lemma_decimal_digits_injective(a / 10, b / 10, (w - 1) as nat);
    }
}

/// Every numbered identifier has the shape of a version-4 UUID text.
pub proof fn lemma_numbered_uuid_is_uuid(n: nat)
    ensures
        is_uuid_v4_text(numbered_uuid_text(n)),
{
    lemma_decimal_digits_shape(n, 20);
    let d = decimal_digits(n, 20);
    let c = numbered_uuid_text(n);
    assert(c.len() == 36);
    assert forall|i: int| 0 <= i < 36 implies if i == 8 || i == 13 || i == 18 || i == 23 {
        #[trigger] c[i] == '-'
    } else {
        is_lower_hex_char(c[i])
    } by {
        if i < 8 {
            assert(c[i] == d[i]);
        } else if 9 <= i < 13 {
            assert(c[i] == d[i - 1]);
        } else if 24 <= i < 32 {
            assert(c[i] == d[i - 12]);
        }
    }
}

/// Different numbers give different identifiers.
pub proof fn lemma_numbered_uuid_injective(a: nat, b: nat)
    requires
        a < pow10(20),
        b < pow10(20),
        numbered_uuid_text(a) == numbered_uuid_text(b),
    ensures
        a == b,
{
    lemma_decimal_digits_shape(a, 20);
    lemma_decimal_digits_shape(b, 20);
    let ca = numbered_uuid_text(a);
    let cb = numbered_uuid_text(b);
    assert(decimal_digits(a, 20) =~= ca.subrange(0, 8) + ca.subrange(9, 13) + ca.subrange(24, 32));
    assert(decimal_digits(b, 20) =~= cb.subrange(0, 8) + cb.subrange(9, 13) + cb.subrange(24, 32));
    lemma_decimal_digits_injective(a, b, 20);
}

/// Every `usize` is below ten to the twentieth.
pub proof fn lemma_usize_below_pow10_20(n: usize)
    ensures
        n < pow10(20),
{
    reveal_with_fuel(pow10, 21);
    assert(pow10(20) == 100000000000000000000nat);
}

fn digit_text(d: u64) -> (s: &'static str)
    requires
        d < 10,
    ensures
        s@ == seq![digit_char(d as int)],
{
    proof {
        reveal_strlit("0");
        reveal_strlit("1");
        reveal_strlit("2");
        reveal_strlit("3");
        reveal_strlit("4");
        reveal_strlit("5");
        reveal_strlit("6");
        reveal_strlit("7");
        reveal_strlit("8");
        reveal_strlit("9");
    }
    let s = if d == 0 {
        "0"
    } else if d == 1 {
        "1"
    } else if d == 2 {
        "2"
    } else if d == 3 {
        "3"
    } else if d == 4 {
        "4"
    } else if d == 5 {
        "5"
    } else if d == 6 {
        "6"
    } else if d == 7 {
        "7"
    } else if d == 8 {
        "8"
    } else {
        "9"
    };
    assert(s@ =~= seq![digit_char(d as int)]);
    s
}

fn decimal_digits_text(n: u64, w: usize) -> (s: String)
    ensures
        s@ == decimal_digits(n as nat, w as nat),
    decreases w,
{
    if w == 0 {
        String::new()
    } else {
        let mut s = decimal_digits_text(n / 10, w - 1);
        s.append(digit_text(n % 10));
        assert(s@ =~= decimal_digits(n as nat, w as nat));
        s
    }
}

/// The identifier numbered `n`.
pub fn numbered_uuid(n: u64) -> (s: String)
    ensures
        s@ == numbered_uuid_text(n as nat),
        is_uuid_v4_text(s@),
{
    proof {
        lemma_numbered_uuid_is_uuid(n as nat);
        lemma_decimal_digits_shape(n as nat, 20);
        reveal_strlit("-");
        reveal_strlit("-4000-8000-");
        reveal_strlit("0000");
    }
    let digits = decimal_digits_text(n, 20);
    let d = digits.as_str();
    let mut s = d.substring_char(0, 8).to_owned();
    s.append("-");
    s.append(d.substring_char(8, 12));
    s.append("-4000-8000-");
    s.append(d.substring_char(12, 20));
    s.append("0000");
    assert(s@ =~= numbered_uuid_text(n as nat));
    s
}

/// The upper-case form of a text, as std's `str::to_uppercase` computes it
/// under the Unicode case mapping.
pub uninterp spec fn std_uppercase(s: Seq<char>) -> Seq<char>;

/// Calls std's `str::to_uppercase`: the contract names its result and says
/// nothing more of it.
#[verifier::external_body]
pub(crate) fn uppercase_text(s: &str) -> (r: String)
    ensures
        r@ == std_uppercase(s@),
{
    s.to_uppercase()
}

} // verus!
