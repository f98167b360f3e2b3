use vstd::prelude::*;

verus! {

/// Whether `c` is one of the ASCII decimal digits.
pub open spec fn is_digit(c: char) -> bool {
    '0' <= c && c <= '9'
}

pub open spec fn all_digits(s: Seq<char>) -> bool {
    forall|i: int| 0 <= i < s.len() ==> is_digit(#[trigger] s[i])
}

/// The number written by a sequence of decimal digits, most significant first.
pub open spec fn digits_value(s: Seq<char>) -> int
    decreases s.len(),
{
    if s.len() == 0 {
        0
    } else {
        digits_value(s.drop_last()) * 10 + (s.last() as int - '0' as int)
    }
}

/// The value of an unsigned decimal literal: an optional `+`, then at least one digit.
pub open spec fn unsigned_text(s: Seq<char>) -> Option<int> {
    let body = if s.len() > 0 && s[0] == '+' { s.drop_first() } else { s };
    if body.len() > 0 && all_digits(body) {
        Some(digits_value(body))
    } else {
        None
    }
}

/// The value of a signed decimal literal: an optional `+` or `-`, then at least one digit.
pub open spec fn signed_text(s: Seq<char>) -> Option<int> {
    if s.len() > 0 && s[0] == '-' {
        let body = s.drop_first();
        if body.len() > 0 && all_digits(body) {
            Some(-digits_value(body))
        } else {
            None
        }
    } else {
        unsigned_text(s)
    }
}

/// The value of `s` as an unsigned literal, where it lies in `0..=max`.
pub open spec fn unsigned_in(s: Seq<char>, max: int) -> Option<int> {
    match unsigned_text(s) {
        Some(v) => if v <= max { Some(v) } else { None },
        None => None,
    }
}

/// The value of `s` as a signed literal, where it lies in `min..=max`.
pub open spec fn signed_in(s: Seq<char>, min: int, max: int) -> Option<int> {
    match signed_text(s) {
        Some(v) => if min <= v <= max { Some(v) } else { None },
        None => None,
    }
}

/// The character of a decimal digit.
pub open spec fn digit_char(d: int) -> char {
    if d == 0 { '0' }
    else if d == 1 { '1' }
    else if d == 2 { '2' }
    else if d == 3 { '3' }
    else if d == 4 { '4' }
    else if d == 5 { '5' }
    else if d == 6 { '6' }
    else if d == 7 { '7' }
    else if d == 8 { '8' }
    else { '9' }
}

/// The decimal notation of `n`, without sign or leading zeros.
pub open spec fn dec_seq(n: nat) -> Seq<char>
    decreases n,
{
    if n < 10 {
        seq![digit_char(n as int)]
    } else {
        dec_seq(n / 10) + seq![digit_char((n % 10) as int)]
    }
}

/// The first line of `s`: everything before the first line feed.
pub open spec fn is_first_line(s: Seq<char>, r: Seq<char>) -> bool {
    &&& r.len() <= s.len()
    &&& r == s.subrange(0, r.len() as int)
    &&& !r.contains('\n')
    &&& r.len() < s.len() ==> s[r.len() as int] == '\n'
}

/// The last component of a path: everything after its last `/`.
pub open spec fn is_base_name(p: Seq<char>, r: Seq<char>) -> bool {
    &&& r.len() <= p.len()
    &&& r == p.subrange(p.len() - r.len(), p.len() as int)
    &&& !r.contains('/')
    &&& r.len() < p.len() ==> p[p.len() - r.len() - 1] == '/'
}

/// The first line of `s`.
pub open spec fn line_of(s: Seq<char>) -> Seq<char> {
    choose|r: Seq<char>| is_first_line(s, r)
}

/// The last component of the path `p`.
pub open spec fn base_of(p: Seq<char>) -> Seq<char> {
    choose|r: Seq<char>| is_base_name(p, r)
}

proof fn lemma_first_line_unique(s: Seq<char>, a: Seq<char>, b: Seq<char>)
    requires
        is_first_line(s, a),
        is_first_line(s, b),
    ensures
        a == b,
{
    if a.len() < b.len() {
        assert(b[a.len() as int] == s[a.len() as int]);
        assert(b.contains('\n'));
    } else if b.len() < a.len() {
        assert(a[b.len() as int] == s[b.len() as int]);
        assert(a.contains('\n'));
    }
}

proof fn lemma_base_name_unique(p: Seq<char>, a: Seq<char>, b: Seq<char>)
    requires
        is_base_name(p, a),
        is_base_name(p, b),
    ensures
        a == b,
{
    if a.len() < b.len() {
        let k = p.len() - a.len() - 1;
        assert(b[k - (p.len() - b.len())] == p[k]);
        assert(b.contains('/'));
    } else if b.len() < a.len() {
        let k = p.len() - b.len() - 1;
        assert(a[k - (p.len() - a.len())] == p[k]);
        assert(a.contains('/'));
    }
}

/// The path of the entry `name` inside the directory `dir`.
pub open spec fn join_spec(dir: Seq<char>, name: Seq<char>) -> Seq<char> {
    dir + seq!['/'] + name
}

/// The first line of an attribute file's content, without its line feed.
pub fn first_line(text: &str) -> (r: String)
    ensures
        is_first_line(text@, r@),
        r@ == line_of(text@),
{
    let n = text.unicode_len();
    let mut i: usize = 0;
    while i < n && text.get_char(i) != '\n'
        invariant
            n == text@.len(),
            i <= n,
            forall|j: int| 0 <= j < i ==> text@[j] != '\n',
        decreases n - i,
    {
        i = i + 1;
    }
    let r = String::from_str(text.substring_char(0, i));
    proof {
        if r@.contains('\n') {
            let j = choose|j: int| 0 <= j < r@.len() && r@[j] == '\n';
            assert(text@[j] == '\n');
        }
        let c = line_of(text@);
        lemma_first_line_unique(text@, r@, c);
    }
    r
}

/// The last component of a path.
pub fn base_name(path: &str) -> (r: String)
    ensures
        is_base_name(path@, r@),
        r@ == base_of(path@),
{
    let n = path.unicode_len();
    let mut i: usize = n;
    while i > 0 && path.get_char(i - 1) != '/'
        invariant
            n == path@.len(),
            i <= n,
            forall|j: int| i <= j < n ==> path@[j] != '/',
        decreases i,
    {
        i = i - 1;
    }
    let r = String::from_str(path.substring_char(i, n));
    proof {
        assert(r@.len() == n - i);
        if r@.contains('/') {
            let j = choose|j: int| 0 <= j < r@.len() && r@[j] == '/';
            assert(path@[i + j] == '/');
        }
        let c = base_of(path@);
        lemma_base_name_unique(path@, r@, c);
    }
    r
}

/// The path of the entry `name` inside the directory `dir`.
pub fn join(dir: &str, name: &str) -> (r: String)
    ensures
        r@ == join_spec(dir@, name@),
{
    let mut r = String::from_str(dir);
    r.append("/");
    proof {
        reveal_strlit("/");
    }
    r.append(name);
    r
}

fn digit_str(d: u64) -> (r: &'static str)
    requires
        d < 10,
    ensures
        r@ == seq![digit_char(d as int)],
{
    proof {
        reveal_strlit("0");
        reveal_strlit("1");
        reveal_strlit("2");
        reveal_strlit("3");
        reveal_strlit("4");
        reveal_strlit("5");
        reveal_strlit("6");
        reveal_strlit("7");
        reveal_strlit("8");
        reveal_strlit("9");
    }
    if d == 0 { "0" }
    else if d == 1 { "1" }
    else if d == 2 { "2" }
    else if d == 3 { "3" }
    else if d == 4 { "4" }
    else if d == 5 { "5" }
    else if d == 6 { "6" }
    else if d == 7 { "7" }
    else if d == 8 { "8" }
    else { "9" }
}

/// The decimal notation of `n`.
pub fn dec_string(n: u64) -> (r: String)
    ensures
        r@ == dec_seq(n as nat),
    decreases n,
{
    if n < 10 {
        String::from_str(digit_str(n))
    } else {
        let mut r = dec_string(n / 10);
        r.append(digit_str(n % 10));
        r
    }
}

proof fn lemma_digits_value_nonneg(s: Seq<char>)
    requires
        all_digits(s),
    ensures
        digits_value(s) >= 0,
    decreases s.len(),
{
    if s.len() > 0 {
        assert(all_digits(s.drop_last())) by {
            assert forall|i: int| 0 <= i < s.drop_last().len() implies is_digit(
                #[trigger] s.drop_last()[i],
            ) by {
                assert(s.drop_last()[i] == s[i]);
            }
        }
        lemma_digits_value_nonneg(s.drop_last());
        assert(is_digit(s[s.len() - 1]));
    }
}

/// The value of the digits `s[start..]`, when there is at least one, all are
/// digits, and the value fits in a `u64`.
fn parse_digits(s: &str, start: usize) -> (r: Option<u64>)
    requires
        start <= s@.len(),
    ensures
        ({
            let body = s@.subrange(start as int, s@.len() as int);
            r == (if body.len() > 0 && all_digits(body) && digits_value(body) <= u64::MAX {
                Some(digits_value(body) as u64)
            } else {
                None
            })
        }),
        r is Some ==> r->0 as int == digits_value(s@.subrange(start as int, s@.len() as int)),
{
    let n = s.unicode_len();
    let ghost body = s@.subrange(start as int, n as int);
    if start >= n {
        return None;
    }
    let mut i: usize = start;
    let mut acc: u64 = 0;
    let mut overflow = false;
    while i < n
        invariant
            n == s@.len(),
            start <= i <= n,
            body == s@.subrange(start as int, n as int),
            all_digits(body.take(i - start)),
            overflow ==> digits_value(body.take(i - start)) > u64::MAX,
            !overflow ==> acc == digits_value(body.take(i - start)),
        decreases n - i,
    {
        let c = s.get_char(i);
        if !('0' <= c && c <= '9') {
            assert(body[i - start] == c);
            assert(!all_digits(body));
            return None;
        }
        let ghost prev = body.take(i - start);
        let ghost next = body.take(i - start + 1);
        proof {
            assert(next.drop_last() =~= prev);
            assert(next.last() == c);
            assert(all_digits(next)) by {
                assert forall|j: int| 0 <= j < next.len() implies is_digit(#[trigger] next[j]) by {
                    if j < prev.len() {
                        assert(next[j] == prev[j]);
                    }
                }
            }
            lemma_digits_value_nonneg(prev);
        }
        let d = (c as u32 - '0' as u32) as u64;
        if !overflow {
            if acc > (u64::MAX - d) / 10 {
                overflow = true;
            } else {
                acc = acc * 10 + d;
            }
        }
        i = i + 1;
    }
    assert(body.take(n - start) =~= body);
    if overflow {
        None
    } else {
        Some(acc)
    }
}

/// Parses an unsigned decimal number that must fit in a `u64`.
pub fn parse_u64(s: &str) -> (r: Option<u64>)
    ensures
        r == (match unsigned_in(s@, u64::MAX as int) {
            Some(v) => Some(v as u64),
            None => None::<u64>,
        }),
        r is Some ==> unsigned_text(s@) == Some(r->0 as int),
        r is None ==> unsigned_text(s@) is None || unsigned_text(s@)->0 > u64::MAX,
{
    let n = s.unicode_len();
    if n > 0 && s.get_char(0) == '+' {
        assert(s@.drop_first() =~= s@.subrange(1, s@.len() as int));
        parse_digits(s, 1)
    } else {
        assert(s@ =~= s@.subrange(0, s@.len() as int));
        parse_digits(s, 0)
    }
}

/// Parses an unsigned decimal number that must fit in a `usize`.
pub fn parse_usize(s: &str) -> (r: Option<usize>)
    ensures
        r == (match unsigned_in(s@, usize::MAX as int) {
            Some(v) => Some(v as usize),
            None => None::<usize>,
        }),        r is Some <==> unsigned_in(s@, usize::MAX as int) is Some,
        r is Some ==> r->0 as int == unsigned_in(s@, usize::MAX as int)->0,
{
    match parse_u64(s) {
        Some(v) => {
            assert(unsigned_text(s@) == Some(v as int));
            if v as u128 <= usize::MAX as u128 {
                Some(v as usize)
            } else {
                None
            }
        },
        None => {
            assert(unsigned_text(s@) is Some ==> unsigned_text(s@)->0 > u64::MAX);
            None
        },
    }
}

/// Parses an unsigned decimal number that must fit in a `u32`.
pub fn parse_u32(s: &str) -> (r: Option<u32>)
    ensures
        r == (match unsigned_in(s@, u32::MAX as int) {
            Some(v) => Some(v as u32),
            None => None::<u32>,
        }),        r is Some <==> unsigned_in(s@, u32::MAX as int) is Some,
        r is Some ==> r->0 as int == unsigned_in(s@, u32::MAX as int)->0,
{
    match parse_u64(s) {
        Some(v) => {
            assert(unsigned_text(s@) == Some(v as int));
            if v <= u32::MAX as u64 {
                Some(v as u32)
            } else {
                None
            }
        },
        None => {
            assert(unsigned_text(s@) is Some ==> unsigned_text(s@)->0 > u64::MAX);
            None
        },
    }
}

/// Parses a signed decimal number that must fit in an `i8`.
pub fn parse_i8(s: &str) -> (r: Option<i8>)
    ensures
        r == (match signed_in(s@, i8::MIN as int, i8::MAX as int) {
            Some(v) => Some(v as i8),
            None => None::<i8>,
        }),        r is Some <==> signed_in(s@, i8::MIN as int, i8::MAX as int) is Some,
        r is Some ==> r->0 as int == signed_in(s@, i8::MIN as int, i8::MAX as int)->0,
{
    let n = s.unicode_len();
    if n > 0 && s.get_char(0) == '-' {
        assert(s@.drop_first() =~= s@.subrange(1, s@.len() as int));
        let ghost body = s@.drop_first();
        match parse_digits(s, 1) {
            Some(v) => {
                assert(signed_text(s@) == Some(-(v as int)));
                if v <= 128 {
                    Some((0 - v as i16) as i8)
                } else {
                    None
                }
            },
            None => {
                assert(signed_text(s@) is Some ==> -(signed_text(s@)->0) > u64::MAX);
                None
            },
        }
    } else {
        assert(signed_text(s@) == unsigned_text(s@));
        match parse_u64(s) {
            Some(v) => {
                assert(unsigned_text(s@) == Some(v as int));
                if v <= 127 {
                    Some(v as i8)
                } else {
                    None
                }
            },
            None => {
                assert(unsigned_text(s@) is Some ==> unsigned_text(s@)->0 > u64::MAX);
                None
            },
        }
    }
}

} // verus!
