use vstd::prelude::*;
use vstd::string::*;

verus! {

/// Whether a character is white space: one of the 25 characters to which
/// Unicode gives that property.
pub open spec fn whitespace_spec(c: char) -> bool {
    let n = c as u32;
    ||| 0x0009 <= n <= 0x000D
    ||| n == 0x0020
    ||| n == 0x0085
    ||| n == 0x00A0
    ||| n == 0x1680
    ||| 0x2000 <= n <= 0x200A
    ||| n == 0x2028
    ||| n == 0x2029
    ||| n == 0x202F
    ||| n == 0x205F
    ||| n == 0x3000
}

/// The lower-case form of a text, as `str::to_lowercase` gives it.
pub uninterp spec fn lowercase_spec(s: Seq<char>) -> Seq<char>;

/// Whether a character is white space.
pub fn is_whitespace(c: char) -> (b: bool)
    ensures
        b == whitespace_spec(c),
{
    let n = c as u32;
    (0x0009 <= n && n <= 0x000D) || n == 0x0020 || n == 0x0085 || n == 0x00A0 || n == 0x1680 || (
    0x2000 <= n && n <= 0x200A) || n == 0x2028 || n == 0x2029 || n == 0x202F || n == 0x205F || n
        == 0x3000
}

/// Calls `str::to_lowercase`. Trusted: the result depends on the text
/// alone, and `lowercase_spec` is its name.
#[verifier::external_body]
fn to_lowercase(s: &str) -> (r: String)
    ensures
        r@ == lowercase_spec(s@),
{
    s.to_lowercase()
}

/// The text without the pair of quotes round it: two double quotes or two
/// single ones, as its first and last character. Any other text is left
/// as it is.
pub open spec fn dequote_spec(s: Seq<char>) -> Seq<char> {
    if s.len() >= 2 && ((s[0] == '"' && s.last() == '"') || (s[0] == '\'' && s.last() == '\'')) {
        s.subrange(1, s.len() - 1)
    } else {
        s
    }
}

/// The text without the pair of quotes round it, if it has one.
pub fn dequote<'a>(s: &'a str) -> (r: &'a str)
    ensures
        r@ == dequote_spec(s@),
{
    let n = s.unicode_len();
    if n >= 2 {
        let first = s.get_char(0);
        let last = s.get_char(n - 1);
        if (first == '"' && last == '"') || (first == '\'' && last == '\'') {
            return s.substring_char(1, n - 1);
        }
    }
    s
}

/// The place of the first `sep` in `s`, or the length of `s` where there
/// is none.
pub open spec fn first_sep(s: Seq<char>, sep: char) -> int
    decreases s.len(),
{
    if s.len() == 0 || s[0] == sep {
        0
    } else {
        1 + first_sep(s.drop_first(), sep)
    }
}

/// The parts of `s` between the separators: one more than there are
/// separators, some of them perhaps empty.
pub open spec fn split_spec(s: Seq<char>, sep: char) -> Seq<Seq<char>>
    decreases s.len(),
{
    let k = first_sep(s, sep);
    if 0 <= k < s.len() {
        seq![s.subrange(0, k)] + split_spec(s.subrange(k + 1, s.len() as int), sep)
    } else {
        seq![s]
    }
}

/// The text without the white space it begins with.
pub open spec fn trim_start_spec(s: Seq<char>) -> Seq<char>
    decreases s.len(),
{
    if s.len() > 0 && whitespace_spec(s[0]) {
        trim_start_spec(s.drop_first())
    } else {
        s
    }
}

/// The text without the white space it ends with.
pub open spec fn trim_end_spec(s: Seq<char>) -> Seq<char>
    decreases s.len(),
{
    if s.len() > 0 && whitespace_spec(s.last()) {
        trim_end_spec(s.drop_last())
    } else {
        s
    }
}

/// The text without the white space at either end.
pub open spec fn trim_spec(s: Seq<char>) -> Seq<char> {
    trim_end_spec(trim_start_spec(s))
}

proof fn lemma_first_sep(s: Seq<char>, sep: char, k: int)
    requires
        0 <= k <= s.len(),
        forall|i: int| 0 <= i < k ==> s[i] != sep,
        k < s.len() ==> s[k] == sep,
    ensures
        first_sep(s, sep) == k,
    decreases k,
{
    if k > 0 {
        lemma_first_sep(s.drop_first(), sep, k - 1);
    }
}

proof fn lemma_trim_start(s: Seq<char>, k: int)
    requires
        0 <= k <= s.len(),
        forall|i: int| 0 <= i < k ==> whitespace_spec(s[i]),
        k < s.len() ==> !whitespace_spec(s[k]),
    ensures
        trim_start_spec(s) == s.subrange(k, s.len() as int),
    decreases k,
{
    if k > 0 {
        lemma_trim_start(s.drop_first(), k - 1);
        assert(s.drop_first().subrange(k - 1, s.len() - 1) =~= s.subrange(k, s.len() as int));
    } else {
        assert(s.subrange(0, s.len() as int) =~= s);
    }
}

proof fn lemma_trim_end(s: Seq<char>, k: int)
    requires
        0 <= k <= s.len(),
        forall|i: int| k <= i < s.len() ==> whitespace_spec(s[i]),
        k > 0 ==> !whitespace_spec(s[k - 1]),
    ensures
        trim_end_spec(s) == s.subrange(0, k),
    decreases s.len() - k,
{
    if k < s.len() {
        lemma_trim_end(s.drop_last(), k);
        assert(s.drop_last().subrange(0, k) =~= s.subrange(0, k));
    } else {
        assert(s.subrange(0, s.len() as int) =~= s);
    }
}

/// The text without the white space at either end.
pub fn trim<'a>(s: &'a str) -> (r: &'a str)
    ensures
        r@ == trim_spec(s@),
{
    let n = s.unicode_len();
    let mut a: usize = 0;
    while a < n && is_whitespace(s.get_char(a))
        invariant
            a <= n,
            n == s@.len(),
            forall|i: int| 0 <= i < a ==> whitespace_spec(s@[i]),
        decreases n - a,
    {
        a += 1;
    }
    let mut b: usize = n;
    while b > a && is_whitespace(s.get_char(b - 1))
        invariant
            a <= b <= n,
            n == s@.len(),
            forall|i: int| b <= i < n ==> whitespace_spec(s@[i]),
        decreases b,
    {
        b -= 1;
    }
    proof {
        lemma_trim_start(s@, a as int);
        let rest = s@.subrange(a as int, n as int);
        lemma_trim_end(rest, b - a);
        assert(rest.subrange(0, b - a) =~= s@.subrange(a as int, b as int));
    }
    s.substring_char(a, b)
}

/// The views of the texts of a row.
pub open spec fn views(parts: Seq<&str>) -> Seq<Seq<char>> {
    Seq::new(parts.len(), |i: int| parts[i]@)
}

/// The parts of `s` between the separators.
pub fn split<'a>(s: &'a str, sep: char) -> (parts: Vec<&'a str>)
    ensures
        views(parts@) == split_spec(s@, sep),
{
    let n = s.unicode_len();
    let mut parts: Vec<&'a str> = Vec::new();
    let mut start: usize = 0;
    let mut i: usize = 0;
    proof {
        assert(s@.subrange(0, n as int) =~= s@);
        assert(views(parts@) =~= Seq::empty());
    }
    while i < n
        invariant
            start <= i <= n,
            n == s@.len(),
            forall|k: int| start <= k < i ==> s@[k] != sep,
            views(parts@) + split_spec(s@.subrange(start as int, n as int), sep) == split_spec(
                s@,
                sep,
            ),
        decreases n - i,
    {
        if s.get_char(i) == sep {
            let part = s.substring_char(start, i);
            proof {
                let rest = s@.subrange(start as int, n as int);
                lemma_first_sep(rest, sep, i - start);
                assert(rest.subrange(0, i - start) =~= s@.subrange(start as int, i as int));
                assert(rest.subrange(i - start + 1, rest.len() as int) =~= s@.subrange(
                    i + 1,
                    n as int,
                ));
                assert(views(parts@.push(part)) =~= views(parts@) + seq![part@]);
            }
            parts.push(part);
            start = i + 1;
        }
        i += 1;
    }
    let part = s.substring_char(start, n);
    proof {
        let rest = s@.subrange(start as int, n as int);
        lemma_first_sep(rest, sep, rest.len() as int);
        assert(views(parts@.push(part)) =~= views(parts@) + seq![part@]);
    }
    parts.push(part);
    parts
}

/// The fields of a text: the text without its quotes, cut at every
/// semicolon, each part without the white space round it and then
/// without its quotes.
pub open spec fn fields_spec(s: Seq<char>) -> Seq<Seq<char>> {
    let parts = split_spec(dequote_spec(s), ';');
    Seq::new(parts.len(), |i: int| dequote_spec(trim_spec(parts[i])))
}

/// The fields of a text.
pub fn fields<'a>(s: &'a str) -> (out: Vec<&'a str>)
    ensures
        views(out@) == fields_spec(s@),
{
    let parts = split(dequote(s), ';');
    let mut out: Vec<&'a str> = Vec::new();
    let mut i: usize = 0;
    while i < parts.len()
        invariant
            i <= parts@.len(),
            views(parts@) == split_spec(dequote_spec(s@), ';'),
            out@.len() == i,
            forall|k: int| 0 <= k < i ==> out@[k]@ == fields_spec(s@)[k],
        decreases parts@.len() - i,
    {
        let field = dequote(trim(parts[i]));
        proof {
            assert(views(parts@)[i as int] == parts@[i as int]@);
        }
        out.push(field);
        i += 1;
    }
    proof {
        assert(views(out@) =~= fields_spec(s@));
    }
    out
}

/// The four fields of a text; `None` where it has more or fewer.
pub fn split4<'a>(s: &'a str) -> (res: Option<(&'a str, &'a str, &'a str, &'a str)>)
    ensures
        match res {
            Some((a, b, c, d)) => fields_spec(s@) == seq![a@, b@, c@, d@],
            None => fields_spec(s@).len() != 4,
        },
{
    let parts = fields(s);
    if parts.len() == 4 {
        proof {
            let f = fields_spec(s@);
            assert(f =~= seq![f[0], f[1], f[2], f[3]]);
            assert(views(parts@)[0] == parts@[0]@);
            assert(views(parts@)[1] == parts@[1]@);
            assert(views(parts@)[2] == parts@[2]@);
            assert(views(parts@)[3] == parts@[3]@);
        }
        Some((parts[0], parts[1], parts[2], parts[3]))
    } else {
        None
    }
}

/// The five fields of a text; `None` where it has more or fewer.
pub fn split5<'a>(s: &'a str) -> (res: Option<(&'a str, &'a str, &'a str, &'a str, &'a str)>)
    ensures
        match res {
            Some((a, b, c, d, e)) => fields_spec(s@) == seq![a@, b@, c@, d@, e@],
            None => fields_spec(s@).len() != 5,
        },
{
    let parts = fields(s);
    if parts.len() == 5 {
        proof {
            let f = fields_spec(s@);
            assert(f =~= seq![f[0], f[1], f[2], f[3], f[4]]);
            assert(views(parts@)[0] == parts@[0]@);
            assert(views(parts@)[1] == parts@[1]@);
            assert(views(parts@)[2] == parts@[2]@);
            assert(views(parts@)[3] == parts@[3]@);
            assert(views(parts@)[4] == parts@[4]@);
        }
        Some((parts[0], parts[1], parts[2], parts[3], parts[4]))
    } else {
        None
    }
}

/// The three components of a vector written with commas between: the
/// first three parts of the text without its quotes, each without the
/// white space round it. What follows a third comma is left out; `None`
/// where the text has fewer than three parts.
pub open spec fn vec3_parts_spec(s: Seq<char>) -> Option<(Seq<char>, Seq<char>, Seq<char>)> {
    let parts = split_spec(dequote_spec(s), ',');
    if parts.len() >= 3 {
        Some((trim_spec(parts[0]), trim_spec(parts[1]), trim_spec(parts[2])))
    } else {
        None
    }
}

/// The three components of a vector written with commas between.
pub fn vec3_parts<'a>(s: &'a str) -> (res: Option<(&'a str, &'a str, &'a str)>)
    ensures
        match res {
            Some((x, y, z)) => vec3_parts_spec(s@) == Some((x@, y@, z@)),
            None => vec3_parts_spec(s@) is None,
        },
{
    let parts = split(dequote(s), ',');
    if parts.len() >= 3 {
        proof {
            assert(views(parts@)[0] == parts@[0]@);
            assert(views(parts@)[1] == parts@[1]@);
            assert(views(parts@)[2] == parts@[2]@);
        }
        Some((trim(parts[0]), trim(parts[1]), trim(parts[2])))
    } else {
        None
    }
}

/// `c` is one of the ten decimal digits.
pub open spec fn is_digit(c: char) -> bool {
    '0' <= c <= '9'
}

/// Every character of `s` is a decimal digit.
pub open spec fn all_digits(s: Seq<char>) -> bool {
    forall|i: int| 0 <= i < s.len() ==> is_digit(#[trigger] s[i])
}

/// The number that a row of decimal digits writes.
pub open spec fn digits_value(s: Seq<char>) -> int
    decreases s.len(),
{
    if s.len() == 0 {
        0
    } else {
        digits_value(s.drop_last()) * 10 + (s.last() as int - '0' as int)
    }
}

/// The whole number that a text writes: a plus or minus sign or none, then
/// one decimal digit or more and nothing else. `None` for any other text,
/// and for a number that 32 bits with a sign do not hold.
pub open spec fn parse_i32_spec(s: Seq<char>) -> Option<i32> {
    let signed = s.len() > 0 && (s[0] == '-' || s[0] == '+');
    let digits = if signed {
        s.drop_first()
    } else {
        s
    };
    let value = if s.len() > 0 && s[0] == '-' {
        -digits_value(digits)
    } else {
        digits_value(digits)
    };
    if digits.len() > 0 && all_digits(digits) && -0x8000_0000 <= value <= 0x7fff_ffff {
        Some(value as i32)
    } else {
        None
    }
}

/// The whole number that a text writes.
pub fn parse_i32(s: &str) -> (res: Option<i32>)
    ensures
        res == parse_i32_spec(s@),
{
    let n = s.unicode_len();
    if n == 0 {
        return None;
    }
    let first = s.get_char(0);
    let negative = first == '-';
    let start: usize = if first == '-' || first == '+' {
        1
    } else {
        0
    };
    if start == n {
        return None;
    }
    let ghost digits = s@.subrange(start as int, n as int);
    proof {
        if start == 1 {
            assert(digits =~= s@.drop_first());
        } else {
            assert(digits =~= s@);
        }
        assert(digits.take(0) =~= Seq::empty());
    }
    let mut value: i64 = 0;
    let mut overflow = false;
    let mut i: usize = start;
    while i < n
        invariant
            start <= i <= n,
            n == s@.len(),
            digits == s@.subrange(start as int, n as int),
            digits == (if s@[0] == '-' || s@[0] == '+' {
                s@.drop_first()
            } else {
                s@
            }),
            forall|k: int| 0 <= k < i - start ==> is_digit(digits[k]),
            0 <= value <= 0x8000_0000,
            !overflow ==> value == digits_value(digits.take(i - start)),
            overflow ==> digits_value(digits.take(i - start)) > 0x8000_0000,
        decreases n - i,
    {
        let c = s.get_char(i);
        if c < '0' || c > '9' {
            proof {
                assert(digits[i - start] == c);
                assert(!all_digits(digits));
            }
            return None;
        }
        proof {
            assert(digits[i - start] == c);
            assert(digits.take(i + 1 - start).drop_last() =~= digits.take(i - start));
            assert(digits.take(i + 1 - start).last() == c);
        }
        if !overflow {
            let d: i64 = (c as u32 - '0' as u32) as i64;
            value = value * 10 + d;
            if value > 0x8000_0000 {
                overflow = true;
                value = 0;
            }
        }
        i += 1;
    }
    proof {
        assert(digits.take(n - start) =~= digits);
    }
    if overflow {
        return None;
    }
    if negative {
        Some((-value) as i32)
    } else if value > 0x7fff_ffff {
        None
    } else {
        Some(value as i32)
    }
}

/// The size that a text in lower case writes: two whole numbers with the
/// letter x between, each raised to one where it is smaller. `None` where
/// the text does not hold the letter exactly once, or where either side
/// of it is no whole number.
pub open spec fn resolution_spec(lower: Seq<char>) -> Option<(i32, i32)> {
    let parts = split_spec(lower, 'x');
    if parts.len() == 2 {
        match (parse_i32_spec(parts[0]), parse_i32_spec(parts[1])) {
            (Some(w), Some(h)) => Some(
                (
                    if w < 1 {
                        1i32
                    } else {
                        w
                    },
                    if h < 1 {
                        1i32
                    } else {
                        h
                    },
                ),
            ),
            _ => None,
        }
    } else {
        None
    }
}

/// The size that a text in lower case writes.
pub fn resolution(lower: &str) -> (res: Option<(i32, i32)>)
    ensures
        res == resolution_spec(lower@),
{
    let parts = split(lower, 'x');
    if parts.len() != 2 {
        return None;
    }
    proof {
        assert(views(parts@)[0] == parts@[0]@);
        assert(views(parts@)[1] == parts@[1]@);
    }
    let w = match parse_i32(parts[0]) {
        Some(w) => w,
        None => { return None; },
    };
    let h = match parse_i32(parts[1]) {
        Some(h) => h,
        None => { return None; },
    };
    Some(
        (
            if w < 1 {
                1
            } else {
                w
            },
            if h < 1 {
                1
            } else {
                h
            },
        ),
    )
}

/// The size that a text such as `640x480` writes, in capitals or not: the
/// size that its lower-case form writes.
pub fn parse_resolution(s: &str) -> (res: Option<(i32, i32)>)
    ensures
        res == resolution_spec(lowercase_spec(s@)),
{
    let lower = to_lowercase(s);
    resolution(lower.as_str())
}

} // verus!
