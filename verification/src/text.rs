//! Character-level helpers shared by the parsers and stores: Unicode white
//! space, trimming, decimal formatting and parsing, string equality.
use vstd::prelude::*;

verus! {

broadcast use vstd::string::group_string_axioms;

/// Whether `c` has the Unicode `White_Space` property (the set that
/// `char::is_whitespace` and `str::trim` use).
pub open spec fn is_white_space(c: char) -> bool {
    let v = c as u32;
    (0x9 <= v && v <= 0xd) || v == 0x20 || v == 0x85 || v == 0xa0 || v == 0x1680 || (0x2000
        <= v && v <= 0x200a) || v == 0x2028 || v == 0x2029 || v == 0x202f || v == 0x205f || v
        == 0x3000
}

/// `s` without its leading white space.
pub open spec fn trim_start_seq(s: Seq<char>) -> Seq<char>
    decreases s.len(),
{
    if s.len() > 0 && is_white_space(s[0]) {
        trim_start_seq(s.drop_first())
    } else {
        s
    }
}

/// `s` without its trailing white space.
pub open spec fn trim_end_seq(s: Seq<char>) -> Seq<char>
    decreases s.len(),
{
    if s.len() > 0 && is_white_space(s.last()) {
        trim_end_seq(s.drop_last())
    } else {
        s
    }
}

/// `s` without leading and trailing white space.
pub open spec fn trim_seq(s: Seq<char>) -> Seq<char> {
    trim_end_seq(trim_start_seq(s))
}

/// The trimmed sequence neither starts nor ends with white space.
pub proof fn lemma_trim_has_no_outer_white_space(s: Seq<char>)
    ensures
        trim_seq(s).len() > 0 ==> !is_white_space(trim_seq(s)[0]) && !is_white_space(
            trim_seq(s).last(),
        ),
{
    lemma_trim_start_no_leading(s);
    lemma_trim_end_keeps_no_leading(trim_start_seq(s));
}

proof fn lemma_trim_start_no_leading(s: Seq<char>)
    ensures
        trim_start_seq(s).len() > 0 ==> !is_white_space(trim_start_seq(s)[0]),
    decreases s.len(),
{
    if s.len() > 0 && is_white_space(s[0]) {
        lemma_trim_start_no_leading(s.drop_first());
    }
}

proof fn lemma_trim_end_keeps_no_leading(s: Seq<char>)
    requires
        s.len() > 0 ==> !is_white_space(s[0]),
    ensures
        trim_end_seq(s).len() > 0 ==> !is_white_space(trim_end_seq(s)[0]) && !is_white_space(
            trim_end_seq(s).last(),
        ),
    decreases s.len(),
{
    if s.len() > 0 && is_white_space(s.last()) {
        if s.len() > 1 {
            assert(s.drop_last()[0] == s[0]);
        }
        lemma_trim_end_keeps_no_leading(s.drop_last());
    }
}

/// `str::trim`: the slice of `s` without leading and trailing Unicode white space.
#[verifier::external_body]
pub(crate) fn trim_str(s: &str) -> (r: &str)
    ensures
        r@ == trim_seq(s@),
{
    s.trim()
}

/// `String::push`: appends `c` to `s`.
#[verifier::external_body]
pub(crate) fn push_char(s: &mut String, c: char)
    ensures
        final(s)@ == old(s)@.push(c),
{
    s.push(c)
}

/// Whether two string slices hold the same characters.
pub(crate) fn str_eq(a: &str, b: &str) -> (r: bool)
    ensures
        r == (a@ == b@),
{
    let x = a.to_owned();
    let y = b.to_owned();
    x.eq(&y)
}

/// A `String` holding the characters of `s`.
pub fn owned(s: &str) -> (r: String)
    ensures
        r@ == s@,
{
    s.to_owned()
}

/// A `String` holding the characters of `s`, with white space trimmed at both ends.
pub fn trimmed_owned(s: &str) -> (r: String)
    ensures
        r@ == trim_seq(s@),
{
    trim_str(s).to_owned()
}

/// The characters of `s` in order.
pub fn char_vec(s: &str) -> (r: Vec<char>)
    ensures
        r@ == s@,
{
    let mut out: Vec<char> = Vec::new();
    for c in it: s.chars()
        invariant
            out@ == it.seq().take(it.index() as int),
            it.seq() == s@,
    {
        out.push(c);
    }
    proof {
        assert(s@.take(s@.len() as int) =~= s@);
    }
    out
}

/// A `String` holding the characters `chars`.
pub fn string_from_chars(chars: &Vec<char>) -> (r: String)
    ensures
        r@ == chars@,
{
    let mut out = String::new();
    let mut i: usize = 0;
    while i < chars.len()
        invariant
            i <= chars.len(),
            out@ == chars@.take(i as int),
        decreases chars.len() - i,
    {
        push_char(&mut out, chars[i]);
        proof {
            assert(chars@.take(i as int).push(chars@[i as int]) =~= chars@.take(i + 1));
        }
        i = i + 1;
    }
    proof {
        assert(chars@.take(chars@.len() as int) =~= chars@);
    }
    out
}

/// The ASCII digit for `d < 10`.
pub open spec fn digit_char(d: nat) -> char {
    if d == 0 {
        '0'
    } else if d == 1 {
        '1'
    } else if d == 2 {
        '2'
    } else if d == 3 {
        '3'
    } else if d == 4 {
        '4'
    } else if d == 5 {
        '5'
    } else if d == 6 {
        '6'
    } else if d == 7 {
        '7'
    } else if d == 8 {
        '8'
    } else {
        '9'
    }
}

/// Whether `c` is one of the ASCII digits `0`-`9`.
pub open spec fn is_ascii_digit(c: char) -> bool {
    '0' <= c && c <= '9'
}

/// The value of an ASCII digit.
pub open spec fn digit_value(c: char) -> nat {
    (c as u32 - '0' as u32) as nat
}

/// The decimal representation of `n`, without leading zeros (`"0"` for zero).
pub open spec fn decimal_digits(n: nat) -> Seq<char>
    decreases n,
{
    if n < 10 {
        seq![digit_char(n)]
    } else {
        decimal_digits(n / 10).push(digit_char(n % 10))
    }
}

/// `n` in decimal, left-padded with `0` to at least `width` digits.
pub open spec fn zero_padded(n: nat, width: nat) -> Seq<char> {
    let d = decimal_digits(n);
    if d.len() < width {
        Seq::new((width - d.len()) as nat, |_i: int| '0') + d
    } else {
        d
    }
}

/// The value of a sequence of ASCII digits.
pub open spec fn digits_value(s: Seq<char>) -> nat
    decreases s.len(),
{
    if s.len() == 0 {
        0
    } else {
        digits_value(s.drop_last()) * 10 + digit_value(s.last())
    }
}

/// Whether every character of `s` is an ASCII digit.
pub open spec fn all_ascii_digits(s: Seq<char>) -> bool {
    forall|i: int| 0 <= i < s.len() ==> is_ascii_digit(#[trigger] s[i])
}

/// The part of `s` that `str::parse::<usize>` reads as digits: `s` without a
/// leading `+`, unless the `+` is all there is.
pub open spec fn unsigned_digits(s: Seq<char>) -> Seq<char> {
    if s.len() > 1 && s[0] == '+' {
        s.drop_first()
    } else {
        s
    }
}

/// What `str::parse::<usize>` gives for `s`: an optional `+` (not alone), then
/// one or more ASCII digits whose value fits in a `usize`.
pub open spec fn parse_usize_spec(s: Seq<char>) -> Option<nat> {
    let d = unsigned_digits(s);
    if d.len() > 0 && all_ascii_digits(d) && digits_value(d) <= usize::MAX {
        Some(digits_value(d))
    } else {
        None
    }
}

proof fn lemma_digit_char(k: nat)
    requires
        k < 10,
    ensures
        is_ascii_digit(digit_char(k)),
        digit_value(digit_char(k)) == k,
        k > 0 ==> digit_char(k) != '0',
{
}

/// The decimal representation of `n` is a digit sequence, without a leading
/// zero unless it is `"0"`, whose value is `n`.
pub proof fn lemma_decimal_digits_are_digits(n: nat)
    ensures
        all_ascii_digits(decimal_digits(n)),
        decimal_digits(n).len() >= 1,
        digits_value(decimal_digits(n)) == n,
        n > 0 ==> decimal_digits(n)[0] != '0',
    decreases n,
{
    if n < 10 {
        lemma_digit_char(n);
        let d = seq![digit_char(n)];
        assert(d.drop_last() =~= Seq::<char>::empty());
        assert(digits_value(d.drop_last()) == 0);
        assert(d.last() == digit_char(n));
        assert(digits_value(d) == digits_value(d.drop_last()) * 10 + digit_value(d.last()));
    } else {
        lemma_decimal_digits_are_digits(n / 10);
        lemma_digit_char(n % 10);
        let d = decimal_digits(n);
        assert(d.drop_last() =~= decimal_digits(n / 10));
        assert(d[0] == decimal_digits(n / 10)[0]);
        assert forall|i: int| 0 <= i < d.len() implies is_ascii_digit(#[trigger] d[i]) by {
            if i < d.len() - 1 {
                assert(d[i] == decimal_digits(n / 10)[i]);
            }
        }
        assert(d.last() == digit_char(n % 10));
        assert(digits_value(d) == digits_value(d.drop_last()) * 10 + digit_value(d.last()));
        assert(n == (n / 10) * 10 + n % 10) by (nonlinear_arith);
    }
}

/// Leading zeros do not change the value of a digit sequence.
pub proof fn lemma_digits_value_leading_zeros(k: nat, d: Seq<char>)
    ensures
        digits_value(Seq::new(k, |_i: int| '0') + d) == digits_value(d),
    decreases d.len(),
{
    let z = Seq::new(k, |_i: int| '0');
    if d.len() == 0 {
        assert(z + d =~= z);
        lemma_digits_value_zeros(k);
    } else {
        lemma_digits_value_leading_zeros(k, d.drop_last());
        assert((z + d).drop_last() =~= z + d.drop_last());
        assert((z + d).last() == d.last());
    }
}

proof fn lemma_digits_value_zeros(k: nat)
    ensures
        digits_value(Seq::new(k, |_i: int| '0')) == 0,
    decreases k,
{
    if k > 0 {
        lemma_digits_value_zeros((k - 1) as nat);
        assert(Seq::new(k, |_i: int| '0').drop_last() =~= Seq::new((k - 1) as nat, |_i: int| '0'));
    }
}

fn digit_of(d: usize) -> (c: char)
    requires
        d < 10,
    ensures
        c == digit_char(d as nat),
{
    if d == 0 {
        '0'
    } else if d == 1 {
        '1'
    } else if d == 2 {
        '2'
    } else if d == 3 {
        '3'
    } else if d == 4 {
        '4'
    } else if d == 5 {
        '5'
    } else if d == 6 {
        '6'
    } else if d == 7 {
        '7'
    } else if d == 8 {
        '8'
    } else {
        '9'
    }
}

/// Appends the decimal digits of `n` to `out`.
pub fn push_decimal(out: &mut String, n: usize)
    ensures
        final(out)@ == old(out)@ + decimal_digits(n as nat),
    decreases n,
{
    if n >= 10 {
        push_decimal(out, n / 10);
    }
    push_char(out, digit_of(n % 10));
    proof {
        if n < 10 {
            assert(old(out)@.push(digit_char(n as nat)) =~= old(out)@ + seq![digit_char(n as nat)]);
        } else {
            assert(old(out)@ + decimal_digits((n / 10) as nat) + seq![digit_char((n % 10) as nat)]
                =~= old(out)@ + decimal_digits((n / 10) as nat).push(digit_char((n % 10) as nat)));
        }
    }
}

/// The number of decimal digits of `n`.
pub fn decimal_len(n: usize) -> (r: usize)
    ensures
        r as nat == decimal_digits(n as nat).len(),
        r as int <= n as int + 1,
    decreases n,
{
    if n < 10 {
        1
    } else {
        let r = decimal_len(n / 10);
        r + 1
    }
}

/// Appends `n` in decimal, left-padded with `0` to at least `width` digits.
pub fn push_zero_padded(out: &mut String, n: usize, width: usize)
    ensures
        final(out)@ == old(out)@ + zero_padded(n as nat, width as nat),
{
    let len = decimal_len(n);
    let mut k: usize = 0;
    let ghost start = out@;
    if len < width {
        while k < width - len
            invariant
                len < width,
                k <= width - len,
                out@ == start + Seq::new(k as nat, |_i: int| '0'),
            decreases width - len - k,
        {
            push_char(out, '0');
            proof {
                assert(Seq::new(k as nat, |_i: int| '0').push('0') =~= Seq::new(
                    (k + 1) as nat,
                    |_i: int| '0',
                ));
            }
            k = k + 1;
        }
    }
    push_decimal(out, n);
    proof {
        if len < width {
            assert(start + Seq::new(k as nat, |_i: int| '0') + decimal_digits(n as nat) =~= start
                + zero_padded(n as nat, width as nat));
        } else {
            assert(start + Seq::<char>::empty() =~= start);
            assert(Seq::new(0nat, |_i: int| '0') =~= Seq::<char>::empty());
        }
    }
}

proof fn lemma_digits_value_grows(s: Seq<char>, i: int)
    requires
        0 <= i <= s.len(),
    ensures
        digits_value(s) >= digits_value(s.take(i)),
    decreases s.len() - i,
{
    if i < s.len() {
        lemma_digits_value_grows(s, i + 1);
        assert(s.take(i + 1).drop_last() =~= s.take(i));
    } else {
        assert(s.take(i) =~= s);
    }
}

/// `str::parse::<usize>`, written out: an optional `+` that is not the whole
/// string, then ASCII digits whose value fits in a `usize`.
pub fn parse_usize(s: &str) -> (r: Option<usize>)
    ensures
        r matches Some(v) ==> parse_usize_spec(s@) == Some(v as nat),
        r is None ==> parse_usize_spec(s@) is None,
{
    let chars = char_vec(s);
    let mut i: usize = 0;
    if chars.len() > 1 && chars[0] == '+' {
        i = 1;
    }
    let ghost d = unsigned_digits(s@);
    proof {
        assert(d =~= s@.subrange(i as int, s@.len() as int));
    }
    if i >= chars.len() {
        proof {
            assert(d.len() == 0);
        }
        return None;
    }
    let start = i;
    let mut acc: usize = 0;
    while i < chars.len()
        invariant
            start <= i <= chars.len(),
            chars@ == s@,
            d == s@.subrange(start as int, s@.len() as int),
            d == unsigned_digits(s@),
            acc as nat == digits_value(d.take(i - start)),
            all_ascii_digits(d.take(i - start)),
        decreases chars.len() - i,
    {
        let c = chars[i];
        if !('0' <= c && c <= '9') {
            proof {
                assert(d[i - start] == c);
                assert(!all_ascii_digits(d));
                assert(parse_usize_spec(s@) is None);
            }
            return None;
        }
        let dv = (c as u32 - '0' as u32) as usize;
        proof {
            assert(d.take(i - start + 1).drop_last() =~= d.take(i - start));
            assert(d.take(i - start + 1).last() == c);
        }
        if acc > usize::MAX / 10 || acc * 10 > usize::MAX - dv {
            proof {
                assert(digits_value(d.take(i - start + 1)) > usize::MAX) by (nonlinear_arith)
                    requires
                        digits_value(d.take(i - start + 1)) == acc * 10 + dv,
                        acc > usize::MAX / 10 || acc * 10 > usize::MAX - dv,
                ;
                lemma_digits_value_grows(d, i - start + 1);
                assert(d.take(d.len() as int) =~= d);
                assert(parse_usize_spec(s@) is None);
            }
            return None;
        }
        acc = acc * 10 + dv;
        proof {
            assert forall|j: int| 0 <= j < d.take(i - start + 1).len() implies is_ascii_digit(
                #[trigger] d.take(i - start + 1)[j],
            ) by {
                if j < i - start {
                    assert(d.take(i - start + 1)[j] == d.take(i - start)[j]);
                }
            }
        }
        i = i + 1;
    }
    proof {
        assert(d.take(i - start) =~= d);
    }
    Some(acc)
}

/// The characters of an optional string.
pub open spec fn opt_view(s: Option<String>) -> Option<Seq<char>> {
    match s {
        Some(v) => Some(v@),
        None => None,
    }
}

/// The string in an optional string, borrowed.
pub fn opt_as_str(s: &Option<String>) -> (r: Option<&str>)
    ensures
        match r {
            Some(v) => opt_view(*s) == Some(v@),
            None => s.is_none(),
        },
{
    match s {
        Some(v) => Some(v.as_str()),
        None => None,
    }
}

/// Appends the characters of `s` to `out`.
pub fn push_str(out: &mut String, s: &str)
    ensures
        final(out)@ == old(out)@ + s@,
{
    let chars = char_vec(s);
    let ghost start = out@;
    let mut i: usize = 0;
    while i < chars.len()
        invariant
            i <= chars@.len(),
            chars@ == s@,
            out@ == start + s@.take(i as int),
            start == old(out)@,
        decreases chars@.len() - i,
    {
        push_char(out, chars[i]);
        proof {
            assert(start + s@.take(i + 1) =~= (start + s@.take(i as int)).push(s@[i as int]));
        }
        i = i + 1;
    }
    proof {
        assert(s@.take(s@.len() as int) =~= s@);
    }
}

/// The concatenation of `a` and `b`.
pub fn concat(a: &str, b: &str) -> (r: String)
    ensures
        r@ == a@ + b@,
{
    let mut out = String::new();
    push_str(&mut out, a);
    push_str(&mut out, b);
    proof {
        assert(Seq::<char>::empty() + a@ =~= a@);
    }
    out
}

/// The decimal form of `n`, with a `-` before a negative number.
pub open spec fn signed_decimal(n: int) -> Seq<char> {
    if n < 0 {
        seq!['-'] + decimal_digits((-n) as nat)
    } else {
        decimal_digits(n as nat)
    }
}

/// Appends `n` in decimal, with a `-` before a negative number.
pub fn push_signed_decimal(out: &mut String, n: i32)
    ensures
        final(out)@ == old(out)@ + signed_decimal(n as int),
{
    if n < 0 {
        push_char(out, '-');
        let magnitude: usize = if n == i32::MIN {
            2147483648usize
        } else {
            (-n) as usize
        };
        push_decimal(out, magnitude);
        proof {
            assert(old(out)@.push('-') + decimal_digits(magnitude as nat) =~= old(out)@ + (seq!['-']
                + decimal_digits(magnitude as nat)));
        }
    } else {
        push_decimal(out, n as usize);
    }
}

} // verus!
