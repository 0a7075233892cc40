//! Text primitives on `String` and `&str`, specified over their `Seq<char>` views.
use vstd::prelude::*;

verus! {

/// Unicode `White_Space` property: the characters `char::is_whitespace` accepts,
/// and hence those that `str::trim` removes.
pub open spec fn is_space(c: char) -> bool {
    ||| c == '\t'
    ||| c == '\n'
    ||| c == '\u{0B}'
    ||| c == '\u{0C}'
    ||| c == '\r'
    ||| c == ' '
    ||| c == '\u{85}'
    ||| c == '\u{A0}'
    ||| c == '\u{1680}'
    ||| ('\u{2000}' <= c && c <= '\u{200A}')
    ||| c == '\u{2028}'
    ||| c == '\u{2029}'
    ||| c == '\u{202F}'
    ||| c == '\u{205F}'
    ||| c == '\u{3000}'
}

/// `s` without its leading white space.
pub open spec fn trim_start(s: Seq<char>) -> Seq<char>
    decreases s.len(),
{
    if s.len() > 0 && is_space(s[0]) {
        trim_start(s.drop_first())
    } else {
        s
    }
}

/// `s` without its trailing white space.
pub open spec fn trim_end(s: Seq<char>) -> Seq<char>
    decreases s.len(),
{
    if s.len() > 0 && is_space(s.last()) {
        trim_end(s.drop_last())
    } else {
        s
    }
}

/// `s` without leading and trailing white space (`str::trim`).
pub open spec fn trim(s: Seq<char>) -> Seq<char> {
    trim_end(trim_start(s))
}

/// ASCII lower case of one character; other characters are kept.
pub open spec fn lower_char(c: char) -> char {
    if 'A' <= c && c <= 'Z' {
        ((c as u32) + 32) as char
    } else {
        c
    }
}

/// ASCII lower case of a text.
pub open spec fn lower(s: Seq<char>) -> Seq<char> {
    s.map_values(|c: char| lower_char(c))
}

/// `p` is a prefix of `s`.
pub open spec fn has_prefix(s: Seq<char>, p: Seq<char>) -> bool {
    p.len() <= s.len() && s.subrange(0, p.len() as int) == p
}

/// The ASCII digit for a value below ten.
pub open spec fn digit_char(d: nat) -> char {
    (d + 48) as char
}

/// Decimal text of a natural number, without leading zeros ("0" for zero).
pub open spec fn decimal(n: nat) -> Seq<char>
    decreases n,
{
    if n < 10 {
        seq![digit_char(n)]
    } else {
        decimal(n / 10).push(digit_char(n % 10))
    }
}

/// The character is an ASCII digit.
pub open spec fn is_digit(c: char) -> bool {
    '0' <= c && c <= '9'
}

/// Value of a sequence of ASCII digits.
pub open spec fn digits_value(s: Seq<char>) -> nat
    decreases s.len(),
{
    if s.len() == 0 {
        0
    } else {
        digits_value(s.drop_last()) * 10 + ((s.last() as u32) - 48) as nat
    }
}

/// Every character of `s` is an ASCII digit.
pub open spec fn all_digits(s: Seq<char>) -> bool {
    forall|i: int| 0 <= i < s.len() ==> is_digit(#[trigger] s[i])
}

/// The digits that `str::parse::<usize>` reads: those after an optional leading `+`.
pub open spec fn unsigned_body(s: Seq<char>) -> Seq<char> {
    if s.len() > 0 && s[0] == '+' {
        s.drop_first()
    } else {
        s
    }
}

/// What `str::parse::<usize>` gives: an optional `+`, then one or more ASCII digits,
/// whose value fits in `usize`.
pub open spec fn parse_usize_spec(s: Seq<char>) -> Option<nat> {
    let body = unsigned_body(s);
    if body.len() > 0 && all_digits(body) && digits_value(body) <= usize::MAX {
        Some(digits_value(body))
    } else {
        None
    }
}

/// Appends one character to a string.
///
/// Trusted: `String::push`, documented as appending the given `char` to the end.
#[verifier::external_body]
pub fn push_char(s: &mut String, c: char)
    ensures
        final(s)@ == old(s)@.push(c),
{
    s.push(c);
}

/// Appends a string slice to a string.
///
/// Trusted: `String::push_str`, documented as appending the given slice to the end.
#[verifier::external_body]
pub fn push_text(s: &mut String, t: &str)
    ensures
        final(s)@ == old(s)@ + t@,
{
    s.push_str(t);
}

/// An owned copy of a string slice.
pub fn owned(s: &str) -> (res: String)
    ensures
        res@ == s@,
{
    let mut res = String::new();
    push_text(&mut res, s);
    proof {
        assert(res@ =~= s@);
    }
    res
}

/// The characters of `s`, in order.
pub fn chars_of(s: &str) -> (res: Vec<char>)
    ensures
        res@ == s@,
{
    let mut res: Vec<char> = Vec::new();
    for c in it: s.chars()
        invariant
            res@ == it.seq().take(it.index() as int),
            it.seq() == s@,
    {
        res.push(c);
    }
    res
}

/// The string made of the characters `cs[from..to]`.
pub fn string_from_range(cs: &[char], from: usize, to: usize) -> (res: String)
    requires
        from <= to <= cs@.len(),
    ensures
        res@ == cs@.subrange(from as int, to as int),
{
    let mut res = String::new();
    let mut i = from;
    while i < to
        invariant
            from <= i <= to <= cs@.len(),
            res@ == cs@.subrange(from as int, i as int),
        decreases to - i,
    {
        push_char(&mut res, cs[i]);
        i = i + 1;
        proof {
            assert(res@ =~= cs@.subrange(from as int, i as int));
        }
    }
    res
}

/// The string made of all characters of `cs`.
pub fn string_from_chars(cs: &[char]) -> (res: String)
    ensures
        res@ == cs@,
{
    let res = string_from_range(cs, 0, cs.len());
    proof {
        assert(cs@.subrange(0, cs@.len() as int) =~= cs@);
    }
    res
}

/// `char::is_whitespace`.
pub fn is_space_char(c: char) -> (res: bool)
    ensures
        res == is_space(c),
{
    c == '\t' || c == '\n' || c == '\u{0B}' || c == '\u{0C}' || c == '\r' || c == ' ' || c
        == '\u{85}' || c == '\u{A0}' || c == '\u{1680}' || ('\u{2000}' <= c && c <= '\u{200A}')
        || c == '\u{2028}' || c == '\u{2029}' || c == '\u{202F}' || c == '\u{205F}' || c
        == '\u{3000}'
}

proof fn lemma_trim_start_skip(s: Seq<char>, i: int)
    requires
        0 <= i <= s.len(),
        forall|j: int| 0 <= j < i ==> is_space(#[trigger] s[j]),
    ensures
        trim_start(s) == trim_start(s.skip(i)),
    decreases i,
{
    if i > 0 {
        assert(s.skip(1) =~= s.drop_first());
        lemma_trim_start_skip(s.drop_first(), i - 1);
        assert(s.drop_first().skip(i - 1) =~= s.skip(i));
    } else {
        assert(s.skip(0) =~= s);
    }
}

proof fn lemma_trim_end_take(s: Seq<char>, k: int)
    requires
        0 <= k <= s.len(),
        forall|j: int| k <= j < s.len() ==> is_space(#[trigger] s[j]),
    ensures
        trim_end(s) == trim_end(s.take(k)),
    decreases s.len() - k,
{
    if k < s.len() {
        assert(s.take(s.len() - 1) =~= s.drop_last());
        lemma_trim_end_take(s.drop_last(), k);
        assert(s.drop_last().take(k) =~= s.take(k));
    } else {
        assert(s.take(k) =~= s);
    }
}

/// Bounds of the trimmed part of `cs`: `cs[start..end]` is `trim(cs)`.
pub fn trim_bounds(cs: &[char]) -> (res: (usize, usize))
    ensures
        res.0 <= res.1 <= cs@.len(),
        cs@.subrange(res.0 as int, res.1 as int) == trim(cs@),
{
    let n = cs.len();
    let mut start: usize = 0;
    while start < n && is_space_char(cs[start])
        invariant
            start <= n == cs@.len(),
            forall|j: int| 0 <= j < start ==> is_space(#[trigger] cs@[j]),
        decreases n - start,
    {
        start = start + 1;
    }
    proof {
        lemma_trim_start_skip(cs@, start as int);
        assert(trim_start(cs@.skip(start as int)) == cs@.skip(start as int));
    }
    let ghost rest = cs@.skip(start as int);
    let mut end: usize = n;
    while end > start && is_space_char(cs[end - 1])
        invariant
            start <= end <= n == cs@.len(),
            rest == cs@.skip(start as int),
            forall|j: int| end - start <= j < rest.len() ==> is_space(#[trigger] rest[j]),
        decreases end,
    {
        end = end - 1;
    }
    proof {
        lemma_trim_end_take(rest, end - start);
        let t = rest.take(end - start);
        assert(t =~= cs@.subrange(start as int, end as int));
        if t.len() > 0 {
            assert(t.last() == cs@[end - 1]);
        }
        assert(trim_end(t) == t);
    }
    (start, end)
}

/// `str::trim`, as an owned string.
pub fn trimmed(s: &str) -> (res: String)
    ensures
        res@ == trim(s@),
{
    let cs = chars_of(s);
    let (a, b) = trim_bounds(cs.as_slice());
    string_from_range(cs.as_slice(), a, b)
}

/// ASCII lower case of one character.
pub fn lower_char_exec(c: char) -> (res: char)
    ensures
        res == lower_char(c),
{
    if 'A' <= c && c <= 'Z' {
        let u: u8 = (c as u8) + 32;
        u as char
    } else {
        c
    }
}

/// ASCII lower case of the trimmed text: the form in which replies to prompts are read.
pub fn normalized_reply(s: &str) -> (res: Vec<char>)
    ensures
        res@ == lower(trim(s@)),
{
    let cs = chars_of(s);
    let (a, b) = trim_bounds(cs.as_slice());
    let mut res: Vec<char> = Vec::new();
    let mut i = a;
    while i < b
        invariant
            a <= i <= b <= cs@.len(),
            res@ == lower(cs@.subrange(a as int, i as int)),
        decreases b - i,
    {
        let c = lower_char_exec(cs[i]);
        res.push(c);
        i = i + 1;
        proof {
            assert(res@ =~= lower(cs@.subrange(a as int, i as int)));
        }
    }
    res
}

/// The characters of `s` equal `t`.
pub fn chars_equal(s: &[char], t: &[char]) -> (res: bool)
    ensures
        res == (s@ == t@),
{
    if s.len() != t.len() {
        return false;
    }
    let mut i: usize = 0;
    while i < s.len()
        invariant
            s@.len() == t@.len(),
            i <= s@.len(),
            forall|j: int| 0 <= j < i ==> s@[j] == t@[j],
        decreases s@.len() - i,
    {
        if s[i] != t[i] {
            return false;
        }
        i = i + 1;
    }
    proof {
        assert(s@ =~= t@);
    }
    true
}

/// The characters of `s` equal those of the slice `t`.
pub fn chars_equal_str(s: &[char], t: &str) -> (res: bool)
    ensures
        res == (s@ == t@),
{
    let tc = chars_of(t);
    chars_equal(s, tc.as_slice())
}

/// Two strings are equal.
pub fn str_equal(s: &str, t: &str) -> (res: bool)
    ensures
        res == (s@ == t@),
{
    let sc = chars_of(s);
    chars_equal_str(sc.as_slice(), t)
}

/// `p` is a prefix of `s`.
pub fn starts_with(s: &[char], p: &str) -> (res: bool)
    ensures
        res == has_prefix(s@, p@),
{
    let pc = chars_of(p);
    if pc.len() > s.len() {
        return false;
    }
    let mut i: usize = 0;
    while i < pc.len()
        invariant
            pc@ == p@,
            pc@.len() <= s@.len(),
            i <= pc@.len(),
            forall|j: int| 0 <= j < i ==> s@[j] == pc@[j],
        decreases pc@.len() - i,
    {
        if s[i] != pc[i] {
            proof {
                assert(s@.subrange(0, pc@.len() as int)[i as int] != p@[i as int]);
            }
            return false;
        }
        i = i + 1;
    }
    proof {
        assert(s@.subrange(0, pc@.len() as int) =~= p@);
    }
    true
}

/// Decimal text of an unsigned integer (`u64::to_string`).
pub fn decimal_text(n: u64) -> (res: String)
    ensures
        res@ == decimal(n as nat),
{
    // Collect digits from the least significant one, then emit them in reverse.
    let mut digits: Vec<char> = Vec::new();
    let mut m: u64 = n;
    loop
        invariant_except_break
            m <= n,
            decimal(n as nat) == decimal(m as nat) + digits@.reverse(),
        ensures
            decimal(n as nat) == digits@.reverse(),
        decreases m,
    {
        let d: u64 = m % 10;
        let c = ((d as u8) + 48) as char;
        proof {
            assert(c == digit_char(d as nat));
        }
        if m < 10 {
            proof {
                assert(decimal(m as nat) == seq![c]);
                assert(digits@.push(c).reverse() =~= seq![c] + digits@.reverse());
            }
            digits.push(c);
            break;
        }
        proof {
            assert(decimal(m as nat) == decimal((m / 10) as nat).push(c));
            assert(digits@.push(c).reverse() =~= seq![c] + digits@.reverse());
            assert(decimal((m / 10) as nat).push(c) =~= decimal((m / 10) as nat) + seq![c]);
        }
        digits.push(c);
        m = m / 10;
    }
    let mut res = String::new();
    let mut i: usize = digits.len();
    while i > 0
        invariant
            i <= digits@.len(),
            res@ == digits@.subrange(i as int, digits@.len() as int).reverse(),
        decreases i,
    {
        i = i - 1;
        push_char(&mut res, digits[i]);
        proof {
            assert(res@ =~= digits@.subrange(i as int, digits@.len() as int).reverse());
        }
    }
    proof {
        assert(digits@.subrange(0, digits@.len() as int) =~= digits@);
    }
    res
}

/// `str::parse::<usize>` on a sequence of characters.
pub fn parse_usize(s: &[char]) -> (res: Option<usize>)
    ensures
        match parse_usize_spec(s@) {
            Some(v) => res == Some(v as usize),
            None => res is None,
        },
{
    let start: usize = if s.len() > 0 && s[0] == '+' {
        1
    } else {
        0
    };
    let ghost body = unsigned_body(s@);
    proof {
        assert(body =~= s@.skip(start as int));
    }
    if start >= s.len() {
        return None;
    }
    let mut i = start;
    let mut acc: usize = 0;
    while i < s.len()
        invariant
            start <= i <= s@.len(),
            body == s@.skip(start as int),
            body == unsigned_body(s@),
            all_digits(body.take(i - start)),
            acc as nat == digits_value(body.take(i - start)),
        decreases s@.len() - i,
    {
        let c = s[i];
        if !('0' <= c && c <= '9') {
            proof {
                assert(body[i - start] == c);
                assert(!is_digit(body[i - start]));
                assert(!all_digits(body));
            }
            return None;
        }
        let d: usize = ((c as u32) - 48) as usize;
        proof {
            let t = body.take(i - start + 1);
            assert(t.drop_last() =~= body.take(i - start));
            assert(t.last() == c);
            assert(digits_value(t) == digits_value(body.take(i - start)) * 10 + d);
            assert forall|j: int| 0 <= j < t.len() implies is_digit(#[trigger] t[j]) by {
                if j < t.len() - 1 {
                    assert(t[j] == body.take(i - start)[j]);
                }
            }
        }
        if acc > (usize::MAX - d) / 10 {
            proof {
                let t = body.take(i - start + 1);
                assert(digits_value(t) > usize::MAX) by (nonlinear_arith)
                    requires
                        acc > (usize::MAX - d) / 10,
                        digits_value(t) == acc * 10 + d,
                        d <= 9,
                ;
                lemma_prefix_value_le(body, (i - start + 1) as int);
                assert(parse_usize_spec(s@) is None);
            }
            return None;
        }
        proof {
            assert(acc * 10 + d <= usize::MAX) by (nonlinear_arith)
                requires
                    acc <= (usize::MAX - d) / 10,
                    d <= 9,
            ;
        }
        acc = acc * 10 + d;
        i = i + 1;
    }
    proof {
        assert(body.take(i - start) =~= body);
    }
    Some(acc)
}

proof fn lemma_prefix_value_le(s: Seq<char>, k: int)
    requires
        0 <= k <= s.len(),
        all_digits(s.take(k)),
    ensures
        all_digits(s) ==> digits_value(s.take(k)) <= digits_value(s),
    decreases s.len() - k,
{
    if k < s.len() && all_digits(s) {
        let t = s.take(k + 1);
        assert forall|j: int| 0 <= j < t.len() implies is_digit(#[trigger] t[j]) by {
            assert(t[j] == s[j]);
        }
        lemma_prefix_value_le(s, k + 1);
        assert(is_digit(s[k]));
        assert(t.drop_last() =~= s.take(k));
        assert(forall|j: int| 0 <= j < s.take(k).len() ==> s.take(k)[j] == s[j]);
    } else if k == s.len() {
        assert(s.take(k) =~= s);
    }
}

} // verus!
