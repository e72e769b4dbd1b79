use vstd::prelude::*;

verus! {

/// Appends one character to a `String` (std's `String::push`).
#[verifier::external_body]
pub(crate) fn push_char(s: &mut String, c: char)
    ensures
        final(s)@ == old(s)@.push(c),
{
    s.push(c);
}

/// The characters of a string slice, in order.
pub fn chars_of(s: &str) -> (out: Vec<char>)
    ensures
        out@ == s@,
{
    let n = s.unicode_len();
    let mut out: Vec<char> = Vec::new();
    let mut i: usize = 0;
    while i < n
        invariant
            n == s@.len(),
            i <= n,
            out@ == s@.take(i as int),
        decreases n - i,
    {
        let c = s.get_char(i);
        out.push(c);
        i = i + 1;
        assert(out@ =~= s@.take(i as int));
    }
    assert(out@ =~= s@);
    out
}

/// The character of a decimal digit.
pub open spec fn digit_char(d: int) -> char {
    (d + 48) as char
}

/// Is `c` one of `0` to `9`?
pub open spec fn is_digit(c: char) -> bool {
    '0' <= c && c <= '9'
}

/// The decimal digits of a natural number, most significant first, with no
/// leading zero (zero itself is `0`).
pub open spec fn digits_of(n: nat) -> Seq<char>
    decreases n,
{
    if n < 10 {
        seq![digit_char(n as int)]
    } else {
        digits_of(n / 10).push(digit_char((n % 10) as int))
    }
}

/// The decimal text of an integer: a `-` before negative numbers.
pub open spec fn int_text(i: int) -> Seq<char> {
    if i < 0 {
        seq!['-'] + digits_of((-i) as nat)
    } else {
        digits_of(i as nat)
    }
}

fn digit_to_char(d: u64) -> (c: char)
    requires
        d < 10,
    ensures
        c == digit_char(d as int),
{
    let b: u8 = (d as u8) + 48;
    b as char
}

pub(crate) fn digits_vec(n: u64) -> (v: Vec<char>)
    ensures
        v@ == digits_of(n as nat),
    decreases n,
{
    if n < 10 {
        let mut v: Vec<char> = Vec::new();
        v.push(digit_to_char(n));
        v
    } else {
        let mut v = digits_vec(n / 10);
        v.push(digit_to_char(n % 10));
        v
    }
}

/// The decimal text of an `i64`, as Rust's `to_string` writes it.
pub fn i64_to_text(i: i64) -> (s: String)
    ensures
        s@ == int_text(i as int),
{
    let mut s = String::new();
    let mag: u64 = if i < 0 {
        if i == i64::MIN {
            9223372036854775808u64
        } else {
            (-i) as u64
        }
    } else {
        i as u64
    };
    if i < 0 {
        push_char(&mut s, '-');
    }
    let ds = digits_vec(mag);
    let mut k: usize = 0;
    let ghost start = s@;
    while k < ds.len()
        invariant
            k <= ds@.len(),
            s@ == start + ds@.take(k as int),
        decreases ds@.len() - k,
    {
        push_char(&mut s, ds[k]);
        k = k + 1;
        assert(s@ =~= start + ds@.take(k as int));
    }
    assert(ds@.take(ds@.len() as int) =~= ds@);
    assert(s@ =~= int_text(i as int));
    s
}

/// The value of a run of decimal digits, most significant first.
pub open spec fn digits_value(s: Seq<char>) -> int
    decreases s.len(),
{
    if s.len() == 0 {
        0
    } else {
        digits_value(s.drop_last()) * 10 + (s.last() as int - 48)
    }
}

/// Every character is a decimal digit.
pub open spec fn all_digits(s: Seq<char>) -> bool {
    forall|i: int| 0 <= i < s.len() ==> is_digit(#[trigger] s[i])
}

/// The text after one leading `+` or `-`, if there is one.
pub open spec fn unsigned_part(s: Seq<char>) -> Seq<char> {
    if s.len() > 0 && (s[0] == '-' || s[0] == '+') {
        s.drop_first()
    } else {
        s
    }
}

/// What Rust's `str::parse::<i64>` gives: an optional `+` or `-`, then one or
/// more decimal digits and nothing else, whose value fits in `i64`.
pub open spec fn parse_int_text(s: Seq<char>) -> Option<i64> {
    let neg = s.len() > 0 && s[0] == '-';
    let body = unsigned_part(s);
    let v = if neg {
        -digits_value(body)
    } else {
        digits_value(body)
    };
    if body.len() == 0 || !all_digits(body) {
        None
    } else if i64::MIN <= v <= i64::MAX {
        Some(v as i64)
    } else {
        None
    }
}

proof fn lemma_digits_value_step(s: Seq<char>, i: int)
    requires
        0 <= i < s.len(),
    ensures
        digits_value(s.take(i + 1)) == digits_value(s.take(i)) * 10 + (s[i] as int - 48),
{
    assert(s.take(i + 1).drop_last() =~= s.take(i));
}

proof fn lemma_digits_value_grows(s: Seq<char>, i: int)
    requires
        0 <= i <= s.len(),
        forall|j: int| 0 <= j < s.len() ==> is_digit(#[trigger] s[j]),
    ensures
        digits_value(s) >= digits_value(s.take(i)) >= 0,
    decreases s.len() - i,
{
    if i == s.len() {
        assert(s.take(i) =~= s);
        lemma_digits_nonneg(s);
    } else {
        lemma_digits_value_step(s, i);
        lemma_digits_nonneg(s.take(i));
        lemma_digits_value_grows(s, i + 1);
    }
}

proof fn lemma_digits_nonneg(s: Seq<char>)
    requires
        forall|j: int| 0 <= j < s.len() ==> is_digit(#[trigger] s[j]),
    ensures
        digits_value(s) >= 0,
    decreases s.len(),
{
    if s.len() > 0 {
        assert forall|j: int| 0 <= j < s.drop_last().len() implies is_digit(
            #[trigger] s.drop_last()[j],
        ) by {
            assert(s.drop_last()[j] == s[j]);
        }
        lemma_digits_nonneg(s.drop_last());
    }
}

/// Parses decimal text into an `i64` exactly as Rust's `str::parse::<i64>`.
pub fn parse_i64(text: &str) -> (r: Option<i64>)
    ensures
        r == parse_int_text(text@),
{
    let cs = chars_of(text);
    let n = cs.len();
    let ghost s = text@;
    let neg = n > 0 && cs[0] == '-';
    let start: usize = if n > 0 && (cs[0] == '-' || cs[0] == '+') {
        1
    } else {
        0
    };
    let ghost body = unsigned_part(s);
    assert(body =~= s.subrange(start as int, n as int));
    if start == n {
        return None;
    }
    let mut acc: i128 = 0;
    let mut k: usize = start;
    while k < n
        invariant
            cs@ == s,
            s == text@,
            body == unsigned_part(s),
            neg == (s.len() > 0 && s[0] == '-'),
            n == s.len(),
            start <= k <= n,
            body == s.subrange(start as int, n as int),
            forall|j: int| 0 <= j < k - start ==> is_digit(#[trigger] body[j]),
            acc == digits_value(body.take(k - start)),
            0 <= acc <= 9223372036854775808,
        decreases n - k,
    {
        let c = cs[k];
        if !('0' <= c && c <= '9') {
            assert(!is_digit(body[k - start]));
            return None;
        }
        proof {
            lemma_digits_value_step(body, k - start);
        }
        let d = (c as u32 - 48) as i128;
        acc = acc * 10 + d;
        k = k + 1;
        if acc > 9223372036854775808 {
            proof {
                if all_digits(body) {
                    lemma_digits_value_grows(body, k - start);
                }
            }
            return None;
        }
    }
    assert(body.take(n - start) =~= body);
    let v: i128 = if neg {
        -acc
    } else {
        acc
    };
    if v > 9223372036854775807 {
        None
    } else {
        Some(v as i64)
    }
}

proof fn lemma_digits_of(n: nat)
    ensures
        digits_of(n).len() >= 1,
        all_digits(digits_of(n)),
        digits_value(digits_of(n)) == n,
    decreases n,
{
    if n >= 10 {
        lemma_digits_of(n / 10);
        let s = digits_of(n);
        assert(s.drop_last() =~= digits_of(n / 10));
        assert(s.last() as int == (n % 10) + 48);
        vstd::arithmetic::div_mod::lemma_fundamental_div_mod(n as int, 10);
        assert forall|i: int| 0 <= i < s.len() implies is_digit(#[trigger] s[i]) by {
            if i < s.len() - 1 {
                assert(s[i] == digits_of(n / 10)[i]);
            }
        }
    } else {
        assert(digits_of(n).drop_last() =~= Seq::<char>::empty());
        assert(digits_of(n).last() as int == n + 48);
        assert(digits_value(Seq::<char>::empty()) == 0);
    }
}

/// Reading back the decimal text of an `i64` gives the same `i64`: what
/// `i64_to_text` writes, `parse_i64` reads.
pub proof fn law_int_text_round_trip(i: i64)
    ensures
        parse_int_text(int_text(i as int)) == Some(i),
{
    let m: nat = if i < 0 {
        (-i) as nat
    } else {
        i as nat
    };
    lemma_digits_of(m);
    let s = int_text(i as int);
    if i < 0 {
        assert(s.drop_first() =~= digits_of(m));
        assert(unsigned_part(s) == digits_of(m));
    } else {
        assert(is_digit(s[0]));
        assert(unsigned_part(s) == digits_of(m));
    }
}

/// A `String` holding `cs[from..to]`.
pub fn string_from_chars(cs: &Vec<char>, from: usize, to: usize) -> (s: String)
    requires
        from <= to <= cs@.len(),
    ensures
        s@ == cs@.subrange(from as int, to as int),
{
    let mut s = String::new();
    let mut k: usize = from;
    while k < to
        invariant
            from <= k <= to,
            to <= cs@.len(),
            s@ == cs@.subrange(from as int, k as int),
        decreases to - k,
    {
        push_char(&mut s, cs[k]);
        k = k + 1;
        assert(s@ =~= cs@.subrange(from as int, k as int));
    }
    s
}

/// Unicode's `White_Space` property, which Rust's `char::is_whitespace` tests.
pub open spec fn is_white(c: char) -> bool {
    ||| '\u{9}' <= c && c <= '\u{d}'
    ||| c == ' '
    ||| c == '\u{85}'
    ||| c == '\u{a0}'
    ||| c == '\u{1680}'
    ||| '\u{2000}' <= c && c <= '\u{200a}'
    ||| c == '\u{2028}'
    ||| c == '\u{2029}'
    ||| c == '\u{202f}'
    ||| c == '\u{205f}'
    ||| c == '\u{3000}'
}

fn white(c: char) -> (b: bool)
    ensures
        b == is_white(c),
{
    ('\u{9}' <= c && c <= '\u{d}') || c == ' ' || c == '\u{85}' || c == '\u{a0}' || c == '\u{1680}'
        || ('\u{2000}' <= c && c <= '\u{200a}') || c == '\u{2028}' || c == '\u{2029}' || c
        == '\u{202f}' || c == '\u{205f}' || c == '\u{3000}'
}

/// `s` without its leading white space.
pub open spec fn trim_start_text(s: Seq<char>) -> Seq<char>
    decreases s.len(),
{
    if s.len() > 0 && is_white(s[0]) {
        trim_start_text(s.drop_first())
    } else {
        s
    }
}

/// `s` without its trailing white space.
pub open spec fn trim_end_text(s: Seq<char>) -> Seq<char>
    decreases s.len(),
{
    if s.len() > 0 && is_white(s.last()) {
        trim_end_text(s.drop_last())
    } else {
        s
    }
}

/// `s` without leading and trailing white space, as Rust's `str::trim` gives it.
pub open spec fn trim_text(s: Seq<char>) -> Seq<char> {
    trim_end_text(trim_start_text(s))
}

proof fn lemma_trim_start(s: Seq<char>, a: int)
    requires
        0 <= a <= s.len(),
        forall|j: int| 0 <= j < a ==> is_white(#[trigger] s[j]),
        a == s.len() || !is_white(s[a]),
    ensures
        trim_start_text(s) == s.subrange(a, s.len() as int),
    decreases a,
{
    if a == 0 {
        assert(s.subrange(0, s.len() as int) =~= s);
    } else {
        let t = s.drop_first();
        assert forall|j: int| 0 <= j < a - 1 implies is_white(#[trigger] t[j]) by {
            assert(t[j] == s[j + 1]);
        }
        lemma_trim_start(t, a - 1);
        assert(t.subrange(a - 1, t.len() as int) =~= s.subrange(a, s.len() as int));
    }
}

proof fn lemma_trim_end(s: Seq<char>, b: int)
    requires
        0 <= b <= s.len(),
        forall|j: int| b <= j < s.len() ==> is_white(#[trigger] s[j]),
        b == 0 || !is_white(s[b - 1]),
    ensures
        trim_end_text(s) == s.subrange(0, b),
    decreases s.len() - b,
{
    if b == s.len() {
        assert(s.subrange(0, b) =~= s);
    } else {
        let t = s.drop_last();
        assert forall|j: int| b <= j < t.len() implies is_white(#[trigger] t[j]) by {
            assert(t[j] == s[j]);
        }
        lemma_trim_end(t, b);
        assert(t.subrange(0, b) =~= s.subrange(0, b));
    }
}

proof fn lemma_trim_start_cut(s: Seq<char>) -> (a: int)
    ensures
        0 <= a <= s.len(),
        forall|j: int| 0 <= j < a ==> is_white(#[trigger] s[j]),
        a == s.len() || !is_white(s[a]),
        trim_start_text(s) == s.subrange(a, s.len() as int),
    decreases s.len(),
{
    if s.len() > 0 && is_white(s[0]) {
        let t = s.drop_first();
        let b = lemma_trim_start_cut(t);
        assert forall|j: int| 0 <= j < b + 1 implies is_white(#[trigger] s[j]) by {
            if j > 0 {
                assert(s[j] == t[j - 1]);
            }
        }
        assert(t.subrange(b, t.len() as int) =~= s.subrange(b + 1, s.len() as int));
        b + 1
    } else {
        assert(s.subrange(0, s.len() as int) =~= s);
        0
    }
}

proof fn lemma_trim_end_cut(s: Seq<char>) -> (b: int)
    ensures
        0 <= b <= s.len(),
        forall|j: int| b <= j < s.len() ==> is_white(#[trigger] s[j]),
        b == 0 || !is_white(s[b - 1]),
        trim_end_text(s) == s.subrange(0, b),
    decreases s.len(),
{
    if s.len() > 0 && is_white(s.last()) {
        let t = s.drop_last();
        let b = lemma_trim_end_cut(t);
        assert forall|j: int| b <= j < s.len() implies is_white(#[trigger] s[j]) by {
            if j < t.len() {
                assert(s[j] == t[j]);
            }
        }
        assert(t.subrange(0, b) =~= s.subrange(0, b));
        b
    } else {
        assert(s.subrange(0, s.len() as int) =~= s);
        s.len() as int
    }
}

/// Trimming takes white space off the two ends and nothing else: the result
/// is the piece of the text between a run of white space at its start and a
/// run at its end; it neither begins nor ends with white space; and a text
/// that neither begins nor ends with white space is left as it is.
pub proof fn law_trim_cuts_white_ends(s: Seq<char>)
    ensures
        exists|a: int, b: int|
            0 <= a <= b <= s.len() && trim_text(s) == s.subrange(a, b) && (forall|j: int|
                0 <= j < a ==> is_white(#[trigger] s[j])) && (forall|j: int|
                b <= j < s.len() ==> is_white(#[trigger] s[j])),
        trim_text(s).len() > 0 ==> !is_white(trim_text(s)[0]) && !is_white(trim_text(s).last()),
        s.len() == 0 || (!is_white(s[0]) && !is_white(s.last())) ==> trim_text(s) == s,
{
    let a = lemma_trim_start_cut(s);
    let t = s.subrange(a, s.len() as int);
    let c = lemma_trim_end_cut(t);
    let b = a + c;
    assert(t.subrange(0, c) =~= s.subrange(a, b));
    assert forall|j: int| b <= j < s.len() implies is_white(#[trigger] s[j]) by {
        assert(s[j] == t[j - a]);
    }
    if a == s.len() {
        assert(s.subrange(a, b).len() == 0);
    }
    if trim_text(s).len() > 0 {
        assert(trim_text(s)[0] == t[0]);
        assert(trim_text(s).last() == t[c - 1]);
    }
    if s.len() > 0 && !is_white(s[0]) && !is_white(s.last()) {
        assert(a == 0);
        assert(b == s.len());
        assert(s.subrange(0, s.len() as int) =~= s);
    }
}

/// `text` without leading and trailing white space (Rust's `str::trim`).
pub fn trim(text: &str) -> (r: String)
    ensures
        r@ == trim_text(text@),
{
    let cs = chars_of(text);
    let n = cs.len();
    let mut a: usize = 0;
    while a < n && white(cs[a])
        invariant
            n == cs@.len(),
            a <= n,
            forall|j: int| 0 <= j < a ==> is_white(#[trigger] cs@[j]),
        decreases n - a,
    {
        a = a + 1;
    }
    proof {
        lemma_trim_start(cs@, a as int);
    }
    let ghost t = cs@.subrange(a as int, n as int);
    let mut b: usize = n;
    while b > a && white(cs[b - 1])
        invariant
            n == cs@.len(),
            a <= b <= n,
            t == cs@.subrange(a as int, n as int),
            forall|j: int| b - a <= j < t.len() ==> is_white(#[trigger] t[j]),
        decreases b - a,
    {
        b = b - 1;
        assert(t[b - a] == cs@[b as int]);
    }
    proof {
        if b > a {
            assert(t[b - a - 1] == cs@[b - 1]);
        }
        lemma_trim_end(t, b - a);
        assert(t.subrange(0, b - a) =~= cs@.subrange(a as int, b as int));
    }
    string_from_chars(&cs, a, b)
}

/// The strings of `list`, each after the one before, with `sep` between two.
pub open spec fn join_text(list: Seq<Seq<char>>, sep: Seq<char>) -> Seq<char>
    decreases list.len(),
{
    if list.len() == 0 {
        Seq::empty()
    } else if list.len() == 1 {
        list[0]
    } else {
        join_text(list.drop_last(), sep) + sep + list.last()
    }
}

/// The views of a list of strings.
pub open spec fn texts(list: Seq<String>) -> Seq<Seq<char>> {
    list.map_values(|s: String| s@)
}

/// Joins strings with a separator, as Rust's `join` on a slice of strings.
pub fn join(list: &Vec<String>, sep: &str) -> (r: String)
    ensures
        r@ == join_text(texts(list@), sep@),
{
    let mut r = String::new();
    let mut i: usize = 0;
    while i < list.len()
        invariant
            i <= list@.len(),
            r@ == join_text(texts(list@).take(i as int), sep@),
        decreases list@.len() - i,
    {
        if i > 0 {
            r.append(sep);
        }
        r.append(list[i].as_str());
        i = i + 1;
        assert(texts(list@).take(i as int).drop_last() =~= texts(list@).take(i - 1));
        if i == 1 {
            assert(texts(list@).take(1)[0] == list@[0]@);
        }
    }
    assert(texts(list@).take(list@.len() as int) =~= texts(list@));
    r
}

} // verus!
