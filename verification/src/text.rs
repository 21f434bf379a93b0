//! Text helpers: characters in and out of strings, decimal numbers, and
//! the byte order of strings.

use vstd::prelude::*;
use vstd::string::*;

verus! {

/// `String::push` of std: appends one character to the end of the string.
pub assume_specification[ String::push ](s: &mut String, c: char)
    ensures
        final(s)@ == old(s)@.push(c),
;

/// The characters of a string, in order.
pub fn to_chars(s: &str) -> (r: Vec<char>)
    ensures
        r@ == s@,
{
    let mut r: Vec<char> = Vec::new();
    for c in it: s.chars()
        invariant
            it.seq() == s@,
            r@ == s@.take(it.index() as int),
    {
        r.push(c);
        assert(s@.take(it.index() + 1) =~= s@.take(it.index() as int).push(c));
    }
    assert(s@.take(s@.len() as int) =~= s@);
    r
}

/// The string made of the characters `from..to`.
pub fn from_chars(chars: &Vec<char>, from: usize, to: usize) -> (r: String)
    requires
        from <= to <= chars@.len(),
    ensures
        r@ == chars@.subrange(from as int, to as int),
{
    let mut r = String::new();
    let mut i: usize = from;
    while i < to
        invariant
            from <= i <= to <= chars@.len(),
            r@ == chars@.subrange(from as int, i as int),
        decreases to - i,
    {
        r.push(chars[i]);
        assert(chars@.subrange(from as int, i + 1) =~= chars@.subrange(from as int, i as int).push(
            chars@[i as int],
        ));
        i = i + 1;
    }
    r
}

/// Whether two strings hold the same characters.
pub fn same_text(a: &str, b: &str) -> (r: bool)
    ensures
        r == (a@ == b@),
{
    a.to_owned() == b.to_owned()
}

/// Whether an optional string holds exactly `b`.
pub fn is_text(a: &Option<String>, b: &str) -> (r: bool)
    ensures
        r == (a is Some && a->0@ == b@),
{
    match a {
        Some(s) => same_text(s.as_str(), b),
        None => false,
    }
}

/// `a` followed by `b`.
pub fn concat2(a: &str, b: &str) -> (r: String)
    ensures
        r@ == a@ + b@,
{
    let mut r = a.to_owned();
    r.append(b);
    r
}

/// `a`, `b` and `c` in a row.
pub fn concat3(a: &str, b: &str, c: &str) -> (r: String)
    ensures
        r@ == a@ + b@ + c@,
{
    let mut r = a.to_owned();
    r.append(b);
    r.append(c);
    r
}

/// The decimal digit `d`.
pub open spec fn digit_char(d: int) -> char {
    if d == 0 {
        '0'
    } else if d == 1 {
        '1'
    } else if d == 2 {
        '2'
    } else if d == 3 {
        '3'
    } else if d == 4 {
        '4'
    } else if d == 5 {
        '5'
    } else if d == 6 {
        '6'
    } else if d == 7 {
        '7'
    } else if d == 8 {
        '8'
    } else {
        '9'
    }
}

/// The decimal numeral of `n`, without leading zeros.
pub open spec fn numeral(n: nat) -> Seq<char>
    decreases n,
{
    if n < 10 {
        seq![digit_char(n as int)]
    } else {
        numeral(n / 10).push(digit_char((n % 10) as int))
    }
}

pub fn digit(d: u64) -> (c: char)
    requires
        d < 10,
    ensures
        c == digit_char(d as int),
{
    if d == 0 {
        '0'
    } else if d == 1 {
        '1'
    } else if d == 2 {
        '2'
    } else if d == 3 {
        '3'
    } else if d == 4 {
        '4'
    } else if d == 5 {
        '5'
    } else if d == 6 {
        '6'
    } else if d == 7 {
        '7'
    } else if d == 8 {
        '8'
    } else {
        '9'
    }
}

/// The decimal numeral of a number.
pub fn decimal(n: u64) -> (r: String)
    ensures
        r@ == numeral(n as nat),
    decreases n,
{
    if n < 10 {
        let mut r = String::new();
        r.push(digit(n));
        assert(r@ =~= numeral(n as nat));
        r
    } else {
        let mut r = decimal(n / 10);
        r.push(digit(n % 10));
        r
    }
}

/// Numerals of different numbers differ.
pub proof fn numerals_are_distinct(a: nat, b: nat)
    ensures
        numeral(a) == numeral(b) ==> a == b,
    decreases a,
{
    if numeral(a) == numeral(b) {
        numeral_is_not_empty(a / 10);
        numeral_is_not_empty(b / 10);
        if a < 10 && b < 10 {
            assert(numeral(a)[0] == numeral(b)[0]);
        } else if a >= 10 && b >= 10 {
            assert(numeral(a).drop_last() =~= numeral(a / 10));
            assert(numeral(b).drop_last() =~= numeral(b / 10));
            assert(numeral(a).last() == numeral(b).last());
            numerals_are_distinct(a / 10, b / 10);
        } else if a < 10 {
            assert(numeral(a).len() == 1);
            assert(numeral(b).len() == numeral(b / 10).len() + 1);
        } else {
            assert(numeral(b).len() == 1);
            assert(numeral(a).len() == numeral(a / 10).len() + 1);
        }
    }
}

proof fn numeral_is_not_empty(n: nat)
    ensures
        numeral(n).len() >= 1,
    decreases n,
{
    if n >= 10 {
        numeral_is_not_empty(n / 10);
    }
}

/// Lexicographic order of byte sequences: a proper prefix comes first.
pub open spec fn bytes_less(a: Seq<u8>, b: Seq<u8>) -> bool
    decreases a.len(),
{
    if b.len() == 0 {
        false
    } else if a.len() == 0 {
        true
    } else if a[0] != b[0] {
        a[0] < b[0]
    } else {
        bytes_less(a.drop_first(), b.drop_first())
    }
}

/// Whether `a` comes before `b` in the order of std's strings, which is
/// that of their bytes.
pub fn text_less(a: &str, b: &str) -> (r: bool)
    ensures
        r == bytes_less(a.spec_bytes(), b.spec_bytes()),
{
    let x = a.as_bytes();
    let y = b.as_bytes();
    let mut i: usize = 0;
    assert(x@.skip(0) =~= x@ && y@.skip(0) =~= y@);
    while i < x.len() && i < y.len()
        invariant
            i <= x@.len(),
            i <= y@.len(),
            x@ == a.spec_bytes(),
            y@ == b.spec_bytes(),
            bytes_less(x@, y@) == bytes_less(x@.skip(i as int), y@.skip(i as int)),
        decreases x@.len() - i,
    {
        if x[i] != y[i] {
            return x[i] < y[i];
        }
        assert(x@.skip(i as int).drop_first() =~= x@.skip(i + 1));
        assert(y@.skip(i as int).drop_first() =~= y@.skip(i + 1));
        i = i + 1;
    }
    i < y.len()
}

/// Of two different byte sequences exactly one comes first.
pub proof fn bytes_less_is_total(a: Seq<u8>, b: Seq<u8>)
    ensures
        a == b ==> !bytes_less(a, b),
        a != b ==> bytes_less(a, b) == !bytes_less(b, a),
    decreases a.len(),
{
    if a.len() > 0 && b.len() > 0 {
        if a[0] == b[0] {
            bytes_less_is_total(a.drop_first(), b.drop_first());
            assert(a =~= seq![a[0]] + a.drop_first());
            assert(b =~= seq![b[0]] + b.drop_first());
        }
    } else if a.len() == 0 && b.len() == 0 {
        assert(a =~= b);
    }
}

/// The number that a row of decimal digits stands for.
pub open spec fn worth(s: Seq<char>) -> int
    decreases s.len(),
{
    if s.len() == 0 {
        0
    } else {
        worth(s.drop_last()) * 10 + (s.last() as int - '0' as int)
    }
}

/// A numeral is digits, stands for its number, and has no leading zero.
pub proof fn numerals_stand_for_their_number(n: nat)
    ensures
        numeral(n).len() > 0,
        forall|i: int| 0 <= i < numeral(n).len() ==> '0' <= #[trigger] numeral(n)[i] <= '9',
        worth(numeral(n)) == n,
        numeral(n)[0] == '0' ==> n == 0,
    decreases n,
{
    if n >= 10 {
        numerals_stand_for_their_number(n / 10);
        assert(numeral(n).drop_last() =~= numeral(n / 10));
        assert(numeral(n)[0] == numeral(n / 10)[0]);
        assert forall|i: int| 0 <= i < numeral(n).len() implies '0' <= #[trigger] numeral(n)[i]
            <= '9' by {
            if i < numeral(n / 10).len() {
                assert(numeral(n)[i] == numeral(n / 10)[i]);
            }
        }
    } else {
        assert(numeral(n).drop_last() =~= Seq::<char>::empty());
        assert(worth(numeral(n).drop_last()) == 0);
    }
}

/// Texts are ordered by their first different byte; one that the other
/// continues comes first.
pub proof fn bytes_are_ordered_by_the_first_difference(a: Seq<u8>, b: Seq<u8>, k: int)
    requires
        0 <= k <= a.len(),
        k <= b.len(),
        forall|i: int| 0 <= i < k ==> a[i] == b[i],
        k < a.len() && k < b.len() ==> a[k] != b[k],
    ensures
        k < a.len() && k < b.len() ==> bytes_less(a, b) == (a[k] < b[k]),
        k == a.len() || k == b.len() ==> bytes_less(a, b) == (a.len() < b.len()),
    decreases k,
{
    if k > 0 {
        assert(a[0] == b[0]);
        let c = a.drop_first();
        let d = b.drop_first();
        assert forall|i: int| 0 <= i < k - 1 implies c[i] == d[i] by {
            assert(a[i + 1] == b[i + 1]);
        }
        bytes_are_ordered_by_the_first_difference(c, d, k - 1);
    }
}

} // verus!
