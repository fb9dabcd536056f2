//! Character-sequence helpers: comparison, joining, token replacement and
//! decimal conversion of integers.
use vstd::prelude::*;
use vstd::string::StrSliceExecFns;
use vstd::string::StringExecFns;

verus! {

/// The text of each string in `v`.
pub open spec fn texts(v: Seq<String>) -> Seq<Seq<char>> {
    v.map_values(|s: String| s@)
}

/// `parts` separated by `sep`.
pub open spec fn join_with(parts: Seq<Seq<char>>, sep: Seq<char>) -> Seq<char>
    decreases parts.len(),
{
    if parts.len() == 0 {
        Seq::empty()
    } else if parts.len() == 1 {
        parts[0]
    } else {
        join_with(parts.drop_last(), sep) + sep + parts.last()
    }
}

/// Every non-overlapping occurrence of `tok` in `s`, scanned from the left,
/// replaced by `val`.
pub open spec fn replace_all(s: Seq<char>, tok: Seq<char>, val: Seq<char>) -> Seq<char>
    decreases s.len(),
{
    if tok.len() == 0 || s.len() < tok.len() {
        s
    } else if s.subrange(0, tok.len() as int) == tok {
        val + replace_all(s.subrange(tok.len() as int, s.len() as int), tok, val)
    } else {
        seq![s[0]] + replace_all(s.subrange(1, s.len() as int), tok, val)
    }
}

pub open spec fn digit_char(d: int) -> char {
    "0123456789"@[d]
}

/// Decimal digits of `n`, most significant first, without leading zeros.
pub open spec fn digits_of(n: nat) -> Seq<char>
    decreases n,
{
    if n < 10 {
        seq![digit_char(n as int)]
    } else {
        digits_of(n / 10).push(digit_char((n % 10) as int))
    }
}

/// Decimal form of `n`, with a leading `-` when it is negative.
pub open spec fn decimal_text(n: int) -> Seq<char> {
    if n < 0 {
        seq!['-'] + digits_of((-n) as nat)
    } else {
        digits_of(n as nat)
    }
}

pub open spec fn is_digit(c: char) -> bool {
    '0' <= c && c <= '9'
}

/// Value of a nonempty run of decimal digits.
pub open spec fn digits_value(s: Seq<char>) -> int
    decreases s.len(),
{
    if s.len() == 0 {
        0
    } else {
        digits_value(s.drop_last()) * 10 + (s.last() as u32 - '0' as u32)
    }
}

/// Whether `s` is one or more decimal digits.
pub open spec fn all_digits(s: Seq<char>) -> bool {
    s.len() > 0 && forall|i: int| 0 <= i < s.len() ==> is_digit(#[trigger] s[i])
}

/// The integer that `s` writes as an optional sign followed by decimal digits.
pub open spec fn int_text_value(s: Seq<char>) -> Option<int> {
    if s.len() > 0 && (s[0] == '+' || s[0] == '-') {
        let body = s.subrange(1, s.len() as int);
        if all_digits(body) {
            Some(if s[0] == '-' { -digits_value(body) } else { digits_value(body) })
        } else {
            None
        }
    } else if all_digits(s) {
        Some(digits_value(s))
    } else {
        None
    }
}

/// The 64-bit integer that `s` writes, if it writes one in range.
pub open spec fn parsed_int(s: Seq<char>) -> Option<i64> {
    match int_text_value(s) {
        Some(v) => if i64::MIN <= v <= i64::MAX {
            Some(v as i64)
        } else {
            None
        },
        None => None,
    }
}

/// Relies on `<i64 as FromStr>::from_str`: it accepts an optional `+` or `-`
/// followed by one or more ASCII digits whose value fits in `i64`, and
/// rejects everything else.
#[verifier::external_body]
pub(crate) fn parse_i64(s: &str) -> (r: Option<i64>)
    ensures
        r == parsed_int(s@),
{
    s.parse::<i64>().ok()
}

/// Whether two texts are equal.
pub fn same_text(a: &str, b: &str) -> (r: bool)
    ensures
        r == (a@ == b@),
{
    let x = a.to_owned();
    let y = b.to_owned();
    x == y
}

/// Whether `s` begins with `p`.
pub fn starts_with(s: &str, p: &str) -> (r: bool)
    ensures
        r == (p@.len() <= s@.len() && s@.subrange(0, p@.len() as int) == p@),
{
    let n = s.unicode_len();
    let m = p.unicode_len();
    if m > n {
        false
    } else {
        same_text(s.substring_char(0, m), p)
    }
}

/// `s` without its prefix `p`, or nothing when `s` does not begin with `p`.
pub fn strip_prefix<'a>(s: &'a str, p: &str) -> (r: Option<&'a str>)
    ensures
        r is Some <==> (p@.len() <= s@.len() && s@.subrange(0, p@.len() as int) == p@),
        r matches Some(t) ==> t@ == s@.subrange(p@.len() as int, s@.len() as int),
{
    if starts_with(s, p) {
        let n = s.unicode_len();
        let m = p.unicode_len();
        Some(s.substring_char(m, n))
    } else {
        None
    }
}

/// The strings of `parts` separated by `sep`.
pub fn join(parts: &Vec<String>, sep: &str) -> (r: String)
    ensures
        r@ == join_with(texts(parts@), sep@),
{
    let mut out = String::new();
    let mut i: usize = 0;
    while i < parts.len()
        invariant
            i <= parts.len(),
            out@ == join_with(texts(parts@).subrange(0, i as int), sep@),
        decreases parts.len() - i,
    {
        let ghost before = texts(parts@).subrange(0, i as int);
        let ghost after = texts(parts@).subrange(0, i as int + 1);
        assert(after.drop_last() =~= before);
        if i > 0 {
            out.append(sep);
        } else {
            assert(before =~= Seq::<Seq<char>>::empty());
        }
        out.append(parts[i].as_str());
        i = i + 1;
    }
    assert(texts(parts@).subrange(0, parts@.len() as int) =~= texts(parts@));
    out
}

proof fn lemma_replace_step(s: Seq<char>, i: int, tok: Seq<char>, val: Seq<char>)
    requires
        0 <= i < s.len(),
        tok.len() > 0,
    ensures
        i + tok.len() <= s.len() && s.subrange(i, i + tok.len()) == tok ==> replace_all(
            s.subrange(i, s.len() as int),
            tok,
            val,
        ) == val + replace_all(s.subrange(i + tok.len(), s.len() as int), tok, val),
        !(i + tok.len() <= s.len() && s.subrange(i, i + tok.len()) == tok) ==> replace_all(
            s.subrange(i, s.len() as int),
            tok,
            val,
        ) == seq![s[i]] + replace_all(s.subrange(i + 1, s.len() as int), tok, val),
{
    let rest = s.subrange(i, s.len() as int);
    if i + tok.len() <= s.len() {
        assert(rest.subrange(0, tok.len() as int) =~= s.subrange(i, i + tok.len()));
        assert(rest.subrange(tok.len() as int, rest.len() as int) =~= s.subrange(
            i + tok.len(),
            s.len() as int,
        ));
    }
    assert(rest.subrange(1, rest.len() as int) =~= s.subrange(i + 1, s.len() as int));
    assert(rest[0] == s[i]);
    if rest.len() < tok.len() {
        assert(replace_all(s.subrange(i + 1, s.len() as int), tok, val) == s.subrange(
            i + 1,
            s.len() as int,
        ));
        assert(seq![s[i]] + s.subrange(i + 1, s.len() as int) =~= rest);
    }
}

/// `s` with every occurrence of `tok` replaced by `val`, as `str::replace`
/// does for a nonempty pattern.
pub fn replace_token(s: &str, tok: &str, val: &str) -> (r: String)
    ensures
        r@ == replace_all(s@, tok@, val@),
{
    let n = s.unicode_len();
    let m = tok.unicode_len();
    if m == 0 {
        return s.to_owned();
    }
    let mut out = String::new();
    let mut i: usize = 0;
    assert(s@.subrange(0, n as int) =~= s@);
    assert(out@ + s@ =~= s@);
    while i < n
        invariant
            n == s@.len(),
            m == tok@.len(),
            m > 0,
            i <= n,
            out@ + replace_all(s@.subrange(i as int, n as int), tok@, val@) == replace_all(
                s@,
                tok@,
                val@,
            ),
        decreases n - i,
    {
        proof {
            lemma_replace_step(s@, i as int, tok@, val@);
        }
        let ghost old_out = out@;
        if m <= n - i && same_text(s.substring_char(i, i + m), tok) {
            out.append(val);
            proof {
                let ghost rest = replace_all(s@.subrange(i + m, n as int), tok@, val@);
                assert(out@ + rest =~= old_out + (val@ + rest));
            }
            i = i + m;
        } else {
            out.append(s.substring_char(i, i + 1));
            proof {
                let ghost rest = replace_all(s@.subrange(i + 1, n as int), tok@, val@);
                assert(out@ + rest =~= old_out + (seq![s@[i as int]] + rest));
            }
            i = i + 1;
        }
    }
    assert(s@.subrange(n as int, n as int) =~= Seq::<char>::empty());
    out
}

fn digit_str(d: u64) -> (r: &'static str)
    requires
        d < 10,
    ensures
        r@ == seq![digit_char(d as int)],
{
    let s = "0123456789";
    proof {
        reveal_strlit("0123456789");
    }
    let r = s.substring_char(d as usize, d as usize + 1);
    assert(r@ =~= seq![digit_char(d as int)]);
    r
}

fn push_digits(out: &mut String, m: u64)
    ensures
        final(out)@ == old(out)@ + digits_of(m as nat),
    decreases m,
{
    if m >= 10 {
        push_digits(out, m / 10);
        out.append(digit_str(m % 10));
        assert(out@ =~= old(out)@ + digits_of(m as nat));
    } else {
        out.append(digit_str(m));
    }
}

/// The decimal form of `n`.
pub fn decimal(n: i64) -> (r: String)
    ensures
        r@ == decimal_text(n as int),
{
    let mut out = String::new();
    if n < 0 {
        out.append("-");
        proof {
            reveal_strlit("-");
        }
        let m: u64 = (-(n as i128)) as u64;
        push_digits(&mut out, m);
        assert(out@ =~= decimal_text(n as int));
    } else {
        push_digits(&mut out, n as u64);
        assert(out@ =~= decimal_text(n as int));
    }
    out
}

} // verus!
