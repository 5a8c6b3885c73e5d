//! Plain-text helpers: decimal numerals and character sequences.
//!
//! Diagnostic lines carry their location as decimal line and column
//! numbers, so the parser needs to read numerals and the renderer needs to
//! write them. Both directions are specified against the same mathematical
//! numeral, which is what makes the location round trip provable.

use vstd::prelude::*;

verus! {

/// A decimal digit, `'0'` through `'9'`.
pub open spec fn is_digit_char(c: char) -> bool {
    48 <= c as u32 <= 57
}

/// The numeric value of a decimal digit character.
pub open spec fn digit_val(c: char) -> nat {
    (c as u32 - 48) as nat
}

/// The digit character for a value below ten.
pub open spec fn digit_char(d: nat) -> char {
    if d == 0 {
        '0'
    } else if d == 1 {
        '1'
    } else if d == 2 {
        '2'
    } else if d == 3 {
        '3'
    } else if d == 4 {
        '4'
    } else if d == 5 {
        '5'
    } else if d == 6 {
        '6'
    } else if d == 7 {
        '7'
    } else if d == 8 {
        '8'
    } else {
        '9'
    }
}

/// A numeral: at least one character, all of them decimal digits.
pub open spec fn is_numeral(s: Seq<char>) -> bool {
    s.len() >= 1 && forall|i: int| 0 <= i < s.len() ==> is_digit_char(s[i])
}

/// The value of a digit sequence read as a decimal number.
pub open spec fn str_to_nat(s: Seq<char>) -> nat
    decreases s.len(),
{
    if s.len() == 0 {
        0
    } else {
        str_to_nat(s.drop_last()) * 10 + digit_val(s.last())
    }
}

/// The canonical decimal numeral of a number: no sign, no leading zeros
/// (except for the single digit `0` itself).
pub open spec fn numeral(n: nat) -> Seq<char>
    decreases n,
{
    if n < 10 {
        seq![digit_char(n)]
    } else {
        numeral(n / 10).push(digit_char(n % 10))
    }
}

/// Each digit character carries the value it was chosen for.
pub proof fn lemma_digit_char_val(d: nat)
    requires
        d < 10,
    ensures
        is_digit_char(digit_char(d)),
        digit_val(digit_char(d)) == d,
{
    assert('0' as u32 == 48);
    assert('1' as u32 == 49);
    assert('2' as u32 == 50);
    assert('3' as u32 == 51);
    assert('4' as u32 == 52);
    assert('5' as u32 == 53);
    assert('6' as u32 == 54);
    assert('7' as u32 == 55);
    assert('8' as u32 == 56);
    assert('9' as u32 == 57);
}

/// The canonical numeral of a number is a numeral and reads back as that
/// number.
pub proof fn lemma_numeral_roundtrip(n: nat)
    ensures
        is_numeral(numeral(n)),
        str_to_nat(numeral(n)) == n,
    decreases n,
{
    if n < 10 {
        lemma_digit_char_val(n);
        assert(numeral(n) =~= seq![digit_char(n)]);
        assert(numeral(n).drop_last() =~= Seq::<char>::empty());
        assert(str_to_nat(Seq::<char>::empty()) == 0);
        assert(numeral(n).last() == digit_char(n));
        assert(str_to_nat(numeral(n)) == str_to_nat(numeral(n).drop_last()) * 10 + digit_val(
            numeral(n).last(),
        ));
    } else {
        lemma_numeral_roundtrip(n / 10);
        lemma_digit_char_val(n % 10);
        assert(numeral(n).drop_last() =~= numeral(n / 10));
        assert(numeral(n).last() == digit_char(n % 10));
        assert(n == (n / 10) * 10 + n % 10) by (nonlinear_arith);
    }
}

/// Reading one more digit multiplies the value read so far by ten, so the
/// value of a prefix never exceeds the value of the whole numeral.
pub proof fn lemma_str_to_nat_prefix(s: Seq<char>, i: int)
    requires
        0 <= i <= s.len(),
    ensures
        str_to_nat(s.take(i)) <= str_to_nat(s),
    decreases s.len() - i,
{
    if i < s.len() {
        lemma_str_to_nat_prefix(s, i + 1);
        assert(s.take(i + 1).drop_last() =~= s.take(i));
        assert(s.take(i + 1).last() == s[i]);
        assert(str_to_nat(s.take(i)) <= str_to_nat(s.take(i)) * 10 + digit_val(s[i]))
            by (nonlinear_arith);
    } else {
        assert(s.take(i) =~= s);
    }
}

/// Reads a string as a decimal number: `Some` exactly when every character
/// is a digit, there is at least one, and the value fits in `usize`.
pub fn parse_usize(s: &str) -> (r: Option<usize>)
    ensures
        match r {
            Some(n) => is_numeral(s@) && n == str_to_nat(s@) && str_to_nat(s@) <= usize::MAX,
            None => !(is_numeral(s@) && str_to_nat(s@) <= usize::MAX),
        },
{
    let len = s.unicode_len();
    if len == 0 {
        return None;
    }
    let mut acc: usize = 0;
    let mut i: usize = 0;
    while i < len
        invariant
            0 <= i <= len,
            len == s@.len(),
            forall|j: int| 0 <= j < i ==> is_digit_char(s@[j]),
            acc == str_to_nat(s@.take(i as int)),
        decreases len - i,
    {
        let c = s.get_char(i);
        let code = c as u32;
        if code < 48 || code > 57 {
            assert(!is_digit_char(s@[i as int]));
            return None;
        }
        let d = (code - 48) as usize;
        let scaled = match acc.checked_mul(10) {
            Some(v) => v,
            None => {
                proof {
                    assert(s@.take(i + 1).drop_last() =~= s@.take(i as int));
                    assert(str_to_nat(s@.take(i + 1)) > usize::MAX) by (nonlinear_arith)
                        requires
                            str_to_nat(s@.take(i + 1)) == str_to_nat(s@.take(i as int)) * 10
                                + digit_val(s@[i as int]),
                            str_to_nat(s@.take(i as int)) * 10 > usize::MAX,
                    ;
                    lemma_str_to_nat_prefix(s@, i + 1);
                }
                return None;
            },
        };
        let next = match scaled.checked_add(d) {
            Some(v) => v,
            None => {
                proof {
                    assert(s@.take(i + 1).drop_last() =~= s@.take(i as int));
                    lemma_str_to_nat_prefix(s@, i + 1);
                }
                return None;
            },
        };
        proof {
            assert(s@.take(i + 1).drop_last() =~= s@.take(i as int));
            assert(s@.take(i + 1).last() == s@[i as int]);
        }
        acc = next;
        i = i + 1;
    }
    proof {
        assert(s@.take(len as int) =~= s@);
    }
    Some(acc)
}

/// The digit string for a value below ten.
fn digit_str(d: usize) -> (r: &'static str)
    requires
        d < 10,
    ensures
        r@ =~= seq![digit_char(d as nat)],
{
    proof {
        reveal_strlit("0");
        reveal_strlit("1");
        reveal_strlit("2");
        reveal_strlit("3");
        reveal_strlit("4");
        reveal_strlit("5");
        reveal_strlit("6");
        reveal_strlit("7");
        reveal_strlit("8");
        reveal_strlit("9");
    }
    match d {
        0 => "0",
        1 => "1",
        2 => "2",
        3 => "3",
        4 => "4",
        5 => "5",
        6 => "6",
        7 => "7",
        8 => "8",
        _ => "9",
    }
}

/// Writes a number as its canonical decimal numeral.
pub fn format_usize(n: usize) -> (r: String)
    ensures
        r@ == numeral(n as nat),
    decreases n,
{
    if n < 10 {
        String::from_str(digit_str(n))
    } else {
        let mut s = format_usize(n / 10);
        s.append(digit_str(n % 10));
        assert(s@ =~= numeral(n as nat));
        s
    }
}

/// The prefix of `s` before the first occurrence of `c`; all of `s` when
/// `c` does not occur.
pub open spec fn take_until(s: Seq<char>, c: char) -> Seq<char>
    decreases s.len(),
{
    if s.len() == 0 {
        s
    } else if s[0] == c {
        Seq::<char>::empty()
    } else {
        seq![s[0]] + take_until(s.drop_first(), c)
    }
}

/// The suffix of `s` after the first occurrence of `c`; `None` when `c`
/// does not occur.
pub open spec fn rest_after(s: Seq<char>, c: char) -> Option<Seq<char>>
    decreases s.len(),
{
    if s.len() == 0 {
        None
    } else if s[0] == c {
        Some(s.drop_first())
    } else {
        rest_after(s.drop_first(), c)
    }
}

/// All the parts of `s` between occurrences of `c`, in order. There is
/// always at least one part; separators at the ends yield empty parts.
pub open spec fn split_all(s: Seq<char>, c: char) -> Seq<Seq<char>>
    decreases s.len(),
{
    if s.len() == 0 {
        seq![s]
    } else if s[0] == c {
        seq![Seq::<char>::empty()] + split_all(s.drop_first(), c)
    } else {
        let r = split_all(s.drop_first(), c);
        seq![seq![s[0]] + r[0]] + r.drop_first()
    }
}

/// `p` is a prefix of `s`.
pub open spec fn starts_with_spec(s: Seq<char>, p: Seq<char>) -> bool {
    p.len() <= s.len() && s.take(p.len() as int) == p
}

/// Positional reading of `take_until` and `rest_after`: when `i` is the
/// index of the first occurrence of `c` (or the length when there is
/// none), the prefix taken is `s.take(i)` and the rest is what follows it.
pub proof fn lemma_take_rest(s: Seq<char>, c: char, i: int)
    requires
        0 <= i <= s.len(),
        forall|j: int| 0 <= j < i ==> s[j] != c,
        i < s.len() ==> s[i] == c,
    ensures
        take_until(s, c) == s.take(i),
        rest_after(s, c) == if i < s.len() {
            Some(s.skip(i + 1))
        } else {
            Option::<Seq<char>>::None
        },
    decreases s.len(),
{
    if s.len() == 0 {
        assert(s.take(0) =~= s);
    } else if i == 0 && s[0] == c {
        assert(s.take(0) =~= Seq::<char>::empty());
        assert(s.skip(1) =~= s.drop_first());
    } else {
        assert(i > 0);
        let t = s.drop_first();
        assert(forall|j: int| 0 <= j < i - 1 ==> t[j] != c);
        lemma_take_rest(t, c, i - 1);
        assert(s.take(i) =~= seq![s[0]] + t.take(i - 1));
        if i < s.len() {
            assert(s.skip(i + 1) =~= t.skip(i));
        }
    }
}

/// `split_all` unfolds one separator at a time: the first part is
/// `take_until`, and the remaining parts split what follows.
pub proof fn lemma_split_all_step(s: Seq<char>, c: char)
    ensures
        match rest_after(s, c) {
            Option::None => split_all(s, c) == seq![s] && take_until(s, c) == s,
            Option::Some(t) => split_all(s, c) == seq![take_until(s, c)] + split_all(t, c),
        },
    decreases s.len(),
{
    if s.len() == 0 {
        assert(take_until(s, c) =~= s);
    } else if s[0] == c {
        assert(split_all(s, c) =~= seq![take_until(s, c)] + split_all(s.drop_first(), c));
    } else {
        let t = s.drop_first();
        lemma_split_all_step(t, c);
        match rest_after(t, c) {
            Option::None => {
                assert(take_until(s, c) =~= seq![s[0]] + t);
                assert(take_until(s, c) =~= s);
                assert(split_all(s, c) =~= seq![s]);
            },
            Option::Some(u) => {
                assert(split_all(t, c)[0] == take_until(t, c));
                assert(split_all(s, c) =~= seq![seq![s[0]] + take_until(t, c)] + split_all(u, c));
                assert(seq![s[0]] + take_until(t, c) == take_until(s, c));
            },
        }
    }
}

/// Splits off the part of `s` before the first occurrence of `c`,
/// together with what follows that occurrence, if any.
pub fn split_head<'a>(s: &'a str, c: char) -> (r: (&'a str, Option<&'a str>))
    ensures
        r.0@ == take_until(s@, c),
        match r.1 {
            Some(t) => rest_after(s@, c) == Some(t@),
            None => rest_after(s@, c) is None,
        },
{
    let len = s.unicode_len();
    let mut i: usize = 0;
    while i < len
        invariant
            0 <= i <= len,
            len == s@.len(),
            forall|j: int| 0 <= j < i ==> s@[j] != c,
        decreases len - i,
    {
        if s.get_char(i) == c {
            let head = s.substring_char(0, i);
            let rest = s.substring_char(i + 1, len);
            proof {
                lemma_take_rest(s@, c, i as int);
                assert(head@ =~= s@.take(i as int));
                assert(rest@ =~= s@.skip(i + 1));
            }
            return (head, Some(rest));
        }
        i = i + 1;
    }
    proof {
        lemma_take_rest(s@, c, len as int);
        assert(s@.take(len as int) =~= s@);
    }
    (s, None)
}

/// Splits `s` into all its parts between occurrences of `c`, in order.
pub fn split_all_exec<'a>(s: &'a str, c: char) -> (r: Vec<&'a str>)
    ensures
        r@.map_values(|p: &str| p@) == split_all(s@, c),
{
    let mut parts: Vec<&str> = Vec::new();
    let mut cur: &str = s;
    proof {
        assert(parts@.map_values(|p: &str| p@) + split_all(cur@, c) =~= split_all(s@, c));
    }
    loop
        invariant
            parts@.map_values(|p: &str| p@) + split_all(cur@, c) == split_all(s@, c),
        decreases cur@.len(),
    {
        let (head, rest) = split_head(cur, c);
        let ghost prev = parts@.map_values(|p: &str| p@);
        proof {
            lemma_split_all_step(cur@, c);
        }
        match rest {
            Some(t) => {
                parts.push(head);
                proof {
                    assert(parts@.map_values(|p: &str| p@) =~= prev.push(head@));
                    assert(prev.push(head@) + split_all(t@, c) =~= prev + split_all(cur@, c));
                    lemma_take_rest_len(cur@, c, t@);
                }
                cur = t;
            },
            None => {
                parts.push(head);
                proof {
                    assert(parts@.map_values(|p: &str| p@) =~= prev.push(cur@));
                    assert(prev.push(cur@) =~= prev + split_all(cur@, c));
                }
                return parts;
            },
        }
    }
}

/// What follows the first occurrence of a separator is strictly shorter
/// than the whole.
proof fn lemma_take_rest_len(s: Seq<char>, c: char, t: Seq<char>)
    requires
        rest_after(s, c) == Some(t),
    ensures
        t.len() < s.len(),
    decreases s.len(),
{
    if s.len() > 0 && s[0] != c {
        lemma_take_rest_len(s.drop_first(), c, t);
    }
}

/// Whether two strings hold the same characters.
pub fn str_eq(a: &str, b: &str) -> (r: bool)
    ensures
        r == (a@ == b@),
{
    let la = a.unicode_len();
    let lb = b.unicode_len();
    if la != lb {
        return false;
    }
    let mut i: usize = 0;
    while i < la
        invariant
            0 <= i <= la,
            la == a@.len(),
            la == b@.len(),
            forall|j: int| 0 <= j < i ==> a@[j] == b@[j],
        decreases la - i,
    {
        if a.get_char(i) != b.get_char(i) {
            return false;
        }
        i = i + 1;
    }
    proof {
        assert(a@ =~= b@);
    }
    true
}

/// Whether `p` is a prefix of `s`.
pub fn starts_with(s: &str, p: &str) -> (r: bool)
    ensures
        r == starts_with_spec(s@, p@),
{
    let ls = s.unicode_len();
    let lp = p.unicode_len();
    if lp > ls {
        return false;
    }
    let mut i: usize = 0;
    while i < lp
        invariant
            0 <= i <= lp,
            lp <= ls,
            ls == s@.len(),
            lp == p@.len(),
            forall|j: int| 0 <= j < i ==> s@[j] == p@[j],
        decreases lp - i,
    {
        if s.get_char(i) != p.get_char(i) {
            proof {
                assert(s@.take(lp as int)[i as int] != p@[i as int]);
            }
            return false;
        }
        i = i + 1;
    }
    proof {
        assert(s@.take(lp as int) =~= p@);
    }
    true
}

/// A whitespace character as the stream segmenter understands it.
pub open spec fn is_space_char(c: char) -> bool {
    c == ' ' || c == '\t' || c == '\r' || c == '\n'
}

/// A blank line: nothing in it but whitespace.
pub open spec fn is_blank(s: Seq<char>) -> bool {
    forall|i: int| 0 <= i < s.len() ==> is_space_char(s[i])
}

/// Whether the line holds nothing but whitespace.
pub fn is_blank_exec(s: &str) -> (r: bool)
    ensures
        r == is_blank(s@),
{
    let len = s.unicode_len();
    let mut i: usize = 0;
    while i < len
        invariant
            0 <= i <= len,
            len == s@.len(),
            forall|j: int| 0 <= j < i ==> is_space_char(s@[j]),
        decreases len - i,
    {
        let c = s.get_char(i);
        if !(c == ' ' || c == '\t' || c == '\r' || c == '\n') {
            return false;
        }
        i = i + 1;
    }
    true
}

} // verus!
