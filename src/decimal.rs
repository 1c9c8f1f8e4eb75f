use vstd::prelude::*;

verus! {

/// A decimal number `(-1)^negative * mantissa * 10^exponent`.
#[derive(Clone, Copy, Debug, PartialEq, Eq, Structural)]
pub struct Decimal {
    pub negative: bool,
    pub mantissa: u64,
    pub exponent: i32,
}

pub open spec fn digit_char(d: nat) -> char {
    if d == 0 { '0' }
    else if d == 1 { '1' }
    else if d == 2 { '2' }
    else if d == 3 { '3' }
    else if d == 4 { '4' }
    else if d == 5 { '5' }
    else if d == 6 { '6' }
    else if d == 7 { '7' }
    else if d == 8 { '8' }
    else { '9' }
}

/// The decimal digits of `n`, most significant first, without leading zeros.
pub open spec fn nat_digits(n: nat) -> Seq<char>
    decreases n,
{
    if n < 10 {
        seq![digit_char(n)]
    } else {
        nat_digits(n / 10).push(digit_char(n % 10))
    }
}

pub open spec fn zeros(k: nat) -> Seq<char> {
    Seq::new(k, |_i: int| '0')
}

/// Plain positional notation, with no exponent: a sign only when negative,
/// a point only when the value has a fractional part.
pub open spec fn render(d: Decimal) -> Seq<char> {
    let sign = if d.negative { seq!['-'] } else { Seq::<char>::empty() };
    let s = nat_digits(d.mantissa as nat);
    let body = if d.exponent >= 0 {
        s + zeros(d.exponent as nat)
    } else {
        let k = (-d.exponent) as int;
        if s.len() > k {
            s.take(s.len() - k) + seq!['.'] + s.skip(s.len() - k)
        } else {
            seq!['0', '.'] + zeros((k - s.len()) as nat) + s
        }
    };
    sign + body
}

fn digit_str(d: u64) -> (r: &'static str)
    requires
        d < 10,
    ensures
        r@ == seq![digit_char(d as nat)],
{
    proof {
        reveal_strlit("0");
        reveal_strlit("1");
        reveal_strlit("2");
        reveal_strlit("3");
        reveal_strlit("4");
        reveal_strlit("5");
        reveal_strlit("6");
        reveal_strlit("7");
        reveal_strlit("8");
        reveal_strlit("9");
    }
    if d == 0 { "0" }
    else if d == 1 { "1" }
    else if d == 2 { "2" }
    else if d == 3 { "3" }
    else if d == 4 { "4" }
    else if d == 5 { "5" }
    else if d == 6 { "6" }
    else if d == 7 { "7" }
    else if d == 8 { "8" }
    else { "9" }
}

/// The digits of `n` as values 0..=9, most significant first.
fn digits_of(n: u64) -> (r: Vec<u64>)
    ensures
        r@.len() == nat_digits(n as nat).len(),
        forall|i: int| 0 <= i < r@.len() ==> r@[i] < 10,
        forall|i: int|
            0 <= i < r@.len() ==> #[trigger] nat_digits(n as nat)[i] == digit_char(r@[i] as nat),
{
    let mut r: Vec<u64> = Vec::new();
    let mut rest: u64 = n;
    r.insert(0, rest % 10);
    rest = rest / 10;
    while rest > 0
        invariant
            r@.len() > 0,
            forall|i: int| 0 <= i < r@.len() ==> r@[i] < 10,
            rest > 0 ==> nat_digits(n as nat) == nat_digits(rest as nat) + r@.map_values(
                |d: u64| digit_char(d as nat),
            ),
            rest == 0 ==> nat_digits(n as nat) == r@.map_values(|d: u64| digit_char(d as nat)),
        decreases rest,
    {
        let d = rest % 10;
        let ghost old_r = r@;
        r.insert(0, d);
        proof {
            assert(r@.map_values(|d: u64| digit_char(d as nat)) =~= seq![digit_char(d as nat)]
                + old_r.map_values(|d: u64| digit_char(d as nat)));
            if rest / 10 > 0 {
                assert(nat_digits(rest as nat) == nat_digits((rest / 10) as nat).push(
                    digit_char(d as nat),
                ));
                assert(nat_digits(rest as nat) + old_r.map_values(|d: u64| digit_char(d as nat))
                    =~= nat_digits((rest / 10) as nat) + r@.map_values(
                    |d: u64| digit_char(d as nat),
                ));
            } else {
                assert(nat_digits(rest as nat) == seq![digit_char(d as nat)]);
            }
        }
        rest = rest / 10;
    }
    proof {
        assert forall|i: int| 0 <= i < r@.len() implies r@[i] < 10 && #[trigger] nat_digits(
            n as nat,
        )[i] == digit_char(r@[i] as nat) by {
            assert(r@.map_values(|d: u64| digit_char(d as nat))[i] == digit_char(r@[i] as nat));
        }
    }
    r
}

fn append_digits(s: &mut String, ds: &Vec<u64>, from: usize, to: usize)
    requires
        from <= to <= ds@.len(),
        forall|i: int| 0 <= i < ds@.len() ==> ds@[i] < 10,
    ensures
        final(s)@ == old(s)@ + ds@.subrange(from as int, to as int).map_values(
            |d: u64| digit_char(d as nat),
        ),
{
    let mut i = from;
    while i < to
        invariant
            from <= i <= to <= ds@.len(),
            forall|j: int| 0 <= j < ds@.len() ==> ds@[j] < 10,
            s@ == old(s)@ + ds@.subrange(from as int, i as int).map_values(
                |d: u64| digit_char(d as nat),
            ),
        decreases to - i,
    {
        s.append(digit_str(ds[i]));
        assert(ds@.subrange(from as int, i + 1).map_values(|d: u64| digit_char(d as nat))
            =~= ds@.subrange(from as int, i as int).map_values(|d: u64| digit_char(d as nat))
            + seq![digit_char(ds@[i as int] as nat)]);
        i = i + 1;
    }
}

fn append_zeros(s: &mut String, k: u64)
    ensures
        final(s)@ == old(s)@ + zeros(k as nat),
{
    proof {
        reveal_strlit("0");
    }
    let mut i: u64 = 0;
    while i < k
        invariant
            i <= k,
            s@ == old(s)@ + zeros(i as nat),
        decreases k - i,
    {
        s.append("0");
        proof {
            reveal_strlit("0");
            assert(zeros((i + 1) as nat) =~= zeros(i as nat) + seq!['0']);
            assert(s@ =~= old(s)@ + zeros((i + 1) as nat));
        }
        i = i + 1;
    }
}

impl Decimal {
    /// The value in plain positional notation (see `render`).
    pub fn to_text(&self) -> (r: String)
        ensures
            r@ == render(*self),
    {
        proof {
            reveal_strlit("-");
            reveal_strlit(".");
            reveal_strlit("0.");
        }
        let ds = digits_of(self.mantissa);
        let ghost s = nat_digits(self.mantissa as nat);
        let n = ds.len();
        assert(ds@.subrange(0, n as int).map_values(|d: u64| digit_char(d as nat)) =~= s);
        let mut r = String::new();
        if self.negative {
            r.append("-");
        }
        let ghost sign = r@;
        if self.exponent >= 0 {
            append_digits(&mut r, &ds, 0, n);
            append_zeros(&mut r, self.exponent as u64);
        } else {
            let k: u64 = (0 - (self.exponent as i64)) as u64;
            if (n as u64) > k {
                let split = n - (k as usize);
                append_digits(&mut r, &ds, 0, split);
                r.append(".");
                append_digits(&mut r, &ds, split, n);
                assert(ds@.subrange(0, split as int).map_values(|d: u64| digit_char(d as nat))
                    =~= s.take(split as int));
                assert(ds@.subrange(split as int, n as int).map_values(
                    |d: u64| digit_char(d as nat),
                ) =~= s.skip(split as int));
            } else {
                r.append("0.");
                append_zeros(&mut r, k - (n as u64));
                append_digits(&mut r, &ds, 0, n);
            }
        }
        assert(r@ =~= render(*self));
        r
    }
}

pub open spec fn is_digit(c: char) -> bool {
    '0' <= c && c <= '9'
}

pub open spec fn digit_value(c: char) -> nat {
    ((c as u32) - ('0' as u32)) as nat
}

/// The integer that the digits `s` write, most significant first.
pub open spec fn digits_value(s: Seq<char>) -> nat
    decreases s.len(),
{
    if s.len() == 0 {
        0
    } else {
        digits_value(s.drop_last()) * 10 + digit_value(s.last())
    }
}

/// The number of digits in the run of `t` that starts at `i`.
pub open spec fn digit_run(t: Seq<char>, i: int) -> int
    decreases t.len() - i,
{
    if 0 <= i < t.len() && is_digit(t[i]) {
        1 + digit_run(t, i + 1)
    } else {
        0
    }
}

/// Moves the trailing zeros of a nonzero mantissa `m` into the exponent `e`.
pub open spec fn strip_zeros(m: nat, e: int) -> (nat, int)
    decreases m,
{
    if m > 0 && m % 10 == 0 {
        strip_zeros(m / 10, e + 1)
    } else {
        (m, e)
    }
}

/// The number that `t` writes in JSON number syntax, `-?D+(.D+)?([eE][+-]?D+)?`,
/// with the trailing zeros of its mantissa moved into the exponent.
/// `None` when `t` is not in that syntax, when the digits before the exponent, read as
/// one integer, or those of the exponent exceed `u64::MAX`, or when the exponent of the
/// result does not fit in `i32`. A zero keeps its sign and has exponent 0.
pub open spec fn parse_number(t: Seq<char>) -> Option<Decimal> {
    let neg = t.len() > 0 && t[0] == '-';
    let a: int = if neg { 1 } else { 0 };
    let b = a + digit_run(t, a);
    let has_frac = b < t.len() && t[b] == '.';
    let c = if has_frac { b + 1 + digit_run(t, b + 1) } else { b };
    let has_exp = c < t.len() && (t[c] == 'e' || t[c] == 'E');
    let signed_exp = has_exp && c + 1 < t.len() && (t[c + 1] == '-' || t[c + 1] == '+');
    let exp_neg = signed_exp && t[c + 1] == '-';
    let s = if signed_exp { c + 2 } else { c + 1 };
    let d = if has_exp { s + digit_run(t, s) } else { c };
    let frac = if has_frac { t.subrange(b + 1, c) } else { Seq::<char>::empty() };
    let m = digits_value(t.subrange(a, b) + frac);
    let x = if has_exp { digits_value(t.subrange(s, d)) } else { 0 };
    let e = (if exp_neg { -x } else { x as int }) - frac.len();
    if b == a || (has_frac && c == b + 1) || (has_exp && d == s) || d != t.len() || m
        > u64::MAX || x > u64::MAX {
        None
    } else {
        from_parts(neg, m, e)
    }
}

/// The decimal `(-1)^neg * m * 10^e` with the trailing zeros of `m` moved into the
/// exponent, when that exponent fits in `i32`.
pub open spec fn from_parts(neg: bool, m: nat, e: int) -> Option<Decimal> {
    if m == 0 {
        Some(Decimal { negative: neg, mantissa: 0, exponent: 0 })
    } else {
        let (m2, e2) = strip_zeros(m, e);
        if i32::MIN <= e2 <= i32::MAX && m2 <= u64::MAX {
            Some(Decimal { negative: neg, mantissa: m2 as u64, exponent: e2 as i32 })
        } else {
            None
        }
    }
}

proof fn lemma_value_grows(s: Seq<char>, r: Seq<char>)
    ensures
        digits_value(s) <= digits_value(s + r),
    decreases r.len(),
{
    if r.len() == 0 {
        assert(s + r =~= s);
    } else {
        assert((s + r).drop_last() =~= s + r.drop_last());
        lemma_value_grows(s, r.drop_last());
    }
}

proof fn lemma_strip_bounded(m: nat, e: int)
    ensures
        strip_zeros(m, e).1 - e <= m,
        strip_zeros(m, e).0 <= m,
    decreases m,
{
    if m > 0 && m % 10 == 0 {
        lemma_strip_bounded(m / 10, e + 1);
    }
}

fn is_digit_char(c: char) -> (r: bool)
    ensures
        r == is_digit(c),
{
    '0' <= c && c <= '9'
}

/// The end of the run of digits of `t` that starts at `from`.
fn scan_digits(t: &str, len: usize, from: usize) -> (end: usize)
    requires
        len == t@.len(),
        from <= len,
    ensures
        end == from + digit_run(t@, from as int),
        end <= len,
        forall|j: int| from <= j < end ==> is_digit(#[trigger] t@[j]),
{
    let mut i = from;
    while i < len && is_digit_char(t.get_char(i))
        invariant
            from <= i <= len,
            len == t@.len(),
            from + digit_run(t@, from as int) == i + digit_run(t@, i as int),
            forall|j: int| from <= j < i ==> is_digit(#[trigger] t@[j]),
        decreases len - i,
    {
        i = i + 1;
    }
    i
}

/// Reads the digits `t[from..to]` onto the integer already read from `prefix`.
fn accumulate(t: &str, from: usize, to: usize, acc: u64, prefix: Ghost<Seq<char>>) -> (r: Option<u64>)
    requires
        from <= to <= t@.len(),
        forall|j: int| from <= j < to ==> is_digit(#[trigger] t@[j]),
        acc == digits_value(prefix@),
    ensures
        match r {
            Some(v) => v == digits_value(prefix@ + t@.subrange(from as int, to as int)),
            None => digits_value(prefix@ + t@.subrange(from as int, to as int)) > u64::MAX,
        },
{
    let mut v = acc;
    let mut i = from;
    while i < to
        invariant
            from <= i <= to <= t@.len(),
            forall|j: int| from <= j < to ==> is_digit(#[trigger] t@[j]),
            v == digits_value(prefix@ + t@.subrange(from as int, i as int)),
        decreases to - i,
    {
        let c = t.get_char(i);
        let d = (c as u32 - '0' as u32) as u64;
        let ghost next = prefix@ + t@.subrange(from as int, i + 1);
        assert(next.drop_last() =~= prefix@ + t@.subrange(from as int, i as int));
        if v > (u64::MAX - d) / 10 {
            proof {
                assert(t@.subrange(from as int, to as int) =~= t@.subrange(from as int, i + 1)
                    + t@.subrange(i + 1, to as int));
                assert(prefix@ + t@.subrange(from as int, to as int) =~= next + t@.subrange(
                    i + 1,
                    to as int,
                ));
                lemma_value_grows(next, t@.subrange(i + 1, to as int));
            }
            return None;
        }
        v = v * 10 + d;
        i = i + 1;
    }
    Some(v)
}

/// The decimal `(-1)^neg * m * 10^e0` in the form of `from_parts`.
fn normalize(neg: bool, m: u64, e0: i128) -> (r: Option<Decimal>)
    requires
        -(u64::MAX as int) - (usize::MAX as int) <= e0 <= u64::MAX,
    ensures
        r == from_parts(neg, m as nat, e0 as int),
{
    if m == 0 {
        return Some(Decimal { negative: neg, mantissa: 0, exponent: 0 });
    }
    let mut e: i128 = e0;
    let mut mm: u64 = m;
    proof {
        lemma_strip_bounded(m as nat, e as int);
    }
    while mm > 0 && mm % 10 == 0
        invariant
            strip_zeros(mm as nat, e as int) == strip_zeros(m as nat, e0 as int),
            e - e0 + mm <= m,
            -(u64::MAX as int) - (usize::MAX as int) <= e0 <= u64::MAX,
        decreases mm,
    {
        mm = mm / 10;
        e = e + 1;
    }
    if e < i32::MIN as i128 || e > i32::MAX as i128 {
        return None;
    }
    Some(Decimal { negative: neg, mantissa: mm, exponent: e as i32 })
}

impl Decimal {
    /// Reads a number in JSON number syntax (see `parse_number`).
    #[verifier::rlimit(60)]
    pub fn parse(t: &str) -> (r: Option<Decimal>)
        ensures
            r == parse_number(t@),
    {
        let len = t.unicode_len();
        let neg = len > 0 && t.get_char(0) == '-';
        let a: usize = if neg { 1 } else { 0 };
        let b = scan_digits(t, len, a);
        if b == a {
            return None;
        }
        let has_frac = b < len && t.get_char(b) == '.';
        let c = if has_frac { scan_digits(t, len, b + 1) } else { b };
        if has_frac && c == b + 1 {
            return None;
        }
        let has_exp = c < len && (t.get_char(c) == 'e' || t.get_char(c) == 'E');
        let signed_exp = has_exp && c + 1 < len && (t.get_char(c + 1) == '-' || t.get_char(c + 1)
            == '+');
        let exp_neg = signed_exp && t.get_char(c + 1) == '-';
        let s = if signed_exp { c + 2 } else if has_exp { c + 1 } else { c };
        let d = if has_exp { scan_digits(t, len, s) } else { c };
        if (has_exp && d == s) || d != len {
            return None;
        }
        let ghost frac = if has_frac { t@.subrange(b + 1, c as int) } else { Seq::<char>::empty() };
        assert(Seq::<char>::empty() + t@.subrange(a as int, b as int) =~= t@.subrange(a as int, b as int));
        let int_part = match accumulate(t, a, b, 0, Ghost(Seq::<char>::empty())) {
            Some(v) => v,
            None => {
                proof {
                    lemma_value_grows(t@.subrange(a as int, b as int), frac);
                }
                return None;
            },
        };
        let m = if has_frac {
            match accumulate(t, b + 1, c, int_part, Ghost(t@.subrange(a as int, b as int))) {
                Some(v) => v,
                None => {
                    return None;
                },
            }
        } else {
            assert(t@.subrange(a as int, b as int) + frac =~= t@.subrange(a as int, b as int));
            int_part
        };
        let x: u64 = if has_exp {
            assert(Seq::<char>::empty() + t@.subrange(s as int, d as int) =~= t@.subrange(s as int, d as int));
            match accumulate(t, s, d, 0, Ghost(Seq::<char>::empty())) {
                Some(v) => v,
                None => {
                    return None;
                },
            }
        } else {
            0
        };
        let frac_len: usize = if has_frac { c - b - 1 } else { 0 };
        let e: i128 = (if exp_neg { 0 - (x as i128) } else { x as i128 }) - (frac_len as i128);
        assert(frac.len() == frac_len);
        normalize(neg, m, e)
    }
}

} // verus!
