use vstd::prelude::*;

verus! {

/// Character-wise string equality, stated over the views.
pub fn str_eq(a: &str, b: &str) -> (r: bool)
    ensures
        r == (a@ == b@),
{
    let a_len = a.unicode_len();
    let b_len = b.unicode_len();
    if a_len != b_len {
        assert(a@ != b@) by {
            assert(a@.len() != b@.len());
        }
        return false;
    }
    let mut i: usize = 0;
    while i < a_len
        invariant
            a_len == a@.len(),
            b_len == b@.len(),
            a_len == b_len,
            i <= a_len,
            forall|j: int| 0 <= j < i ==> a@[j] == b@[j],
        decreases a_len - i,
    {
        if a.get_char(i) != b.get_char(i) {
            return false;
        }
        i = i + 1;
    }
    proof {
        assert(a@ =~= b@);
    }
    true
}

/// Whether the character `c` occurs in `s`.
pub fn str_contains_char(s: &str, c: char) -> (r: bool)
    ensures
        r == s@.contains(c),
{
    let len = s.unicode_len();
    let mut i: usize = 0;
    while i < len
        invariant
            len == s@.len(),
            i <= len,
            forall|j: int| 0 <= j < i ==> a_ne(s@[j], c),
        decreases len - i,
    {
        if s.get_char(i) == c {
            assert(s@.contains(c));
            return true;
        }
        i = i + 1;
    }
    proof {
        if s@.contains(c) {
            let j = choose|j: int| 0 <= j < s@.len() && s@[j] == c;
            assert(a_ne(s@[j], c));
        }
    }
    false
}

/// Helper predicate so the quantified invariant above has a stable trigger.
pub open spec fn a_ne(x: char, y: char) -> bool {
    x != y
}

/// The decimal digit character for one digit value.
pub open spec fn spec_digit_char(d: int) -> char {
    if d == 0 { '0' }
    else if d == 1 { '1' }
    else if d == 2 { '2' }
    else if d == 3 { '3' }
    else if d == 4 { '4' }
    else if d == 5 { '5' }
    else if d == 6 { '6' }
    else if d == 7 { '7' }
    else if d == 8 { '8' }
    else { '9' }
}

/// Decimal digit sequence of a non-negative integer, most significant first.
pub open spec fn spec_decimal(n: int) -> Seq<char>
    decreases n,
{
    if n < 10 {
        seq![spec_digit_char(n)]
    } else {
        spec_decimal(n / 10) + seq![spec_digit_char(n % 10)]
    }
}

/// Decimal rendering of a signed integer, with `-` for negative values.
pub open spec fn spec_i64_str(n: int) -> Seq<char> {
    if n < 0 {
        seq!['-'] + spec_decimal(-n)
    } else {
        spec_decimal(n)
    }
}

fn digit_str(d: u64) -> (r: &'static str)
    requires
        d < 10,
    ensures
        r@ == seq![spec_digit_char(d as int)],
{
    proof {
        reveal_strlit("0");
        reveal_strlit("1");
        reveal_strlit("2");
        reveal_strlit("3");
        reveal_strlit("4");
        reveal_strlit("5");
        reveal_strlit("6");
        reveal_strlit("7");
        reveal_strlit("8");
        reveal_strlit("9");
    }
    let r = match d {
        0 => "0",
        1 => "1",
        2 => "2",
        3 => "3",
        4 => "4",
        5 => "5",
        6 => "6",
        7 => "7",
        8 => "8",
        _ => "9",
    };
    proof {
        assert(r@ =~= seq![spec_digit_char(d as int)]);
    }
    r
}

/// The digit characters of `rev` read from its end to its start.
pub open spec fn spec_rev_digits(rev: Seq<u64>) -> Seq<char>
    decreases rev.len(),
{
    if rev.len() == 0 {
        Seq::empty()
    } else {
        seq![spec_digit_char(rev.last() as int)] + spec_rev_digits(rev.drop_last())
    }
}

/// Reading digits end-to-start can also be peeled from the front:
/// the first collected digit is the last character of the rendering.
proof fn lemma_rev_digits_first(rev: Seq<u64>)
    requires
        rev.len() > 0,
    ensures
        spec_rev_digits(rev) == spec_rev_digits(rev.drop_first()) + seq![
            spec_digit_char(rev.first() as int),
        ],
    decreases rev.len(),
{
    if rev.len() == 1 {
        assert(rev.drop_last() =~= Seq::<u64>::empty());
        assert(rev.drop_first() =~= Seq::<u64>::empty());
        assert(spec_rev_digits(rev) =~= spec_rev_digits(rev.drop_first()) + seq![
            spec_digit_char(rev.first() as int),
        ]);
    } else {
        lemma_rev_digits_first(rev.drop_last());
        assert(rev.drop_last().drop_first() =~= rev.drop_first().drop_last());
        assert(rev.drop_first().last() == rev.last());
        assert(spec_rev_digits(rev) =~= spec_rev_digits(rev.drop_first()) + seq![
            spec_digit_char(rev.first() as int),
        ]);
    }
}

/// Renders a `u64` in decimal.
pub fn u64_to_string(n: u64) -> (s: String)
    ensures
        s@ == spec_decimal(n as int),
{
    let mut rev: Vec<u64> = Vec::new();
    let mut m: u64 = n;
    // Collect digits least significant first.
    while m >= 10
        invariant
            forall|j: int| 0 <= j < rev@.len() ==> #[trigger] rev@[j] < 10,
            spec_decimal(n as int) == spec_decimal(m as int) + spec_rev_digits(rev@),
        decreases m,
    {
        let d = m % 10;
        proof {
            let r2 = rev@.push(d);
            assert(r2.drop_last() =~= rev@);
            assert(r2.last() == d);
            assert(spec_decimal(m as int) == spec_decimal(m as int / 10) + seq![
                spec_digit_char(m as int % 10),
            ]);
            assert(spec_decimal(m as int) + spec_rev_digits(rev@) =~= spec_decimal(m as int / 10)
                + spec_rev_digits(r2));
        }
        rev.push(d);
        m = m / 10;
    }
    proof {
        let r2 = rev@.push(m);
        assert(r2.drop_last() =~= rev@);
        assert(r2.last() == m);
        assert(spec_decimal(m as int) + spec_rev_digits(rev@) =~= spec_rev_digits(r2));
    }
    rev.push(m);
    let mut s = String::new();
    let mut i: usize = rev.len();
    while i > 0
        invariant
            i <= rev@.len(),
            forall|j: int| 0 <= j < rev@.len() ==> #[trigger] rev@[j] < 10,
            spec_decimal(n as int) == spec_rev_digits(rev@),
            s@ == spec_rev_digits(rev@.subrange(i as int, rev@.len() as int)),
        decreases i,
    {
        i = i - 1;
        let d = rev[i];
        s.append(digit_str(d));
        proof {
            let sub = rev@.subrange(i as int, rev@.len() as int);
            lemma_rev_digits_first(sub);
            assert(sub.drop_first() =~= rev@.subrange(i + 1, rev@.len() as int));
            assert(sub.first() == rev@[i as int]);
        }
    }
    proof {
        assert(rev@.subrange(0, rev@.len() as int) =~= rev@);
    }
    s
}

/// Renders an `i64` in decimal, with a leading `-` when negative.
pub fn i64_to_string(n: i64) -> (s: String)
    ensures
        s@ == spec_i64_str(n as int),
{
    if n >= 0 {
        u64_to_string(n as u64)
    } else {
        let m: u64 = ((-(n + 1)) as u64) + 1;
        assert(m == -(n as int));
        let mut s = String::new();
        proof {
            reveal_strlit("-");
        }
        s.append("-");
        let digits = u64_to_string(m);
        s.append(digits.as_str());
        proof {
            assert(s@ =~= spec_i64_str(n as int));
        }
        s
    }
}

} // verus!
