//! Character-level text operations with the meaning that `str`'s methods of
//! the same names document, stated over `Seq<char>`.
use vstd::prelude::*;
use vstd::string::*;

verus! {

/// Unicode `White_Space`, the property that `char::is_whitespace` documents.
pub open spec fn is_ws(c: char) -> bool {
    let n = c as u32;
    (0x9 <= n && n <= 0xd) || n == 0x20 || n == 0x85 || n == 0xa0 || n == 0x1680
        || (0x2000 <= n && n <= 0x200a) || n == 0x2028 || n == 0x2029 || n == 0x202f
        || n == 0x205f || n == 0x3000
}

/// `s` with its leading whitespace removed (`str::trim_start`).
pub open spec fn trim_start(s: Seq<char>) -> Seq<char>
    decreases s.len(),
{
    if s.len() > 0 && is_ws(s[0]) {
        trim_start(s.drop_first())
    } else {
        s
    }
}

/// `s` with its trailing whitespace removed (`str::trim_end`).
pub open spec fn trim_end(s: Seq<char>) -> Seq<char>
    decreases s.len(),
{
    if s.len() > 0 && is_ws(s.last()) {
        trim_end(s.drop_last())
    } else {
        s
    }
}

/// `s` with whitespace removed at both ends (`str::trim`).
pub open spec fn trim(s: Seq<char>) -> Seq<char> {
    trim_end(trim_start(s))
}

/// `p` is a prefix of `s` (`str::starts_with`).
pub open spec fn starts_with(s: Seq<char>, p: Seq<char>) -> bool {
    p.len() <= s.len() && s.subrange(0, p.len() as int) == p
}

/// `p` is a suffix of `s` (`str::ends_with`).
pub open spec fn ends_with(s: Seq<char>, p: Seq<char>) -> bool {
    p.len() <= s.len() && s.subrange(s.len() - p.len(), s.len() as int) == p
}

/// `p` occurs in `s` starting at index `i`.
pub open spec fn occurs_at(s: Seq<char>, p: Seq<char>, i: int) -> bool {
    0 <= i && i + p.len() <= s.len() && s.subrange(i, i + p.len()) == p
}

/// The first index at or after `i` where `p` occurs in `s`.
pub open spec fn find_from(s: Seq<char>, p: Seq<char>, i: int) -> Option<int>
    decreases s.len() + 1 - i,
{
    if i < 0 || i + p.len() > s.len() {
        None
    } else if occurs_at(s, p, i) {
        Some(i)
    } else {
        find_from(s, p, i + 1)
    }
}

/// The first index where `p` occurs in `s` (`str::find`).
pub open spec fn find(s: Seq<char>, p: Seq<char>) -> Option<int> {
    find_from(s, p, 0)
}

/// `p` occurs somewhere in `s` (`str::contains`).
pub open spec fn contains(s: Seq<char>, p: Seq<char>) -> bool {
    find(s, p) is Some
}

/// The characters of `s` up to its first whitespace.
pub open spec fn take_until_ws(s: Seq<char>) -> Seq<char>
    decreases s.len(),
{
    if s.len() == 0 || is_ws(s[0]) {
        Seq::empty()
    } else {
        seq![s[0]] + take_until_ws(s.drop_first())
    }
}

/// The first whitespace-separated word of `s`, or the empty text where `s`
/// holds none (`s.split_whitespace().next().unwrap_or("")`).
pub open spec fn first_word(s: Seq<char>) -> Seq<char> {
    take_until_ws(trim_start(s))
}

/// `s` with every trailing repetition of `p` removed (`str::trim_end_matches`).
pub open spec fn trim_end_matches(s: Seq<char>, p: Seq<char>) -> Seq<char>
    decreases s.len(),
{
    if p.len() > 0 && ends_with(s, p) {
        trim_end_matches(s.subrange(0, s.len() - p.len()), p)
    } else {
        s
    }
}

/// `s` with every leading `c` removed (`str::trim_start_matches` with a char).
pub open spec fn trim_start_char(s: Seq<char>, c: char) -> Seq<char>
    decreases s.len(),
{
    if s.len() > 0 && s[0] == c {
        trim_start_char(s.drop_first(), c)
    } else {
        s
    }
}

/// Whether `c` is whitespace (`char::is_whitespace`).
pub fn is_whitespace(c: char) -> (b: bool)
    ensures
        b == is_ws(c),
{
    let n: u32 = c as u32;
    (0x9 <= n && n <= 0xd) || n == 0x20 || n == 0x85 || n == 0xa0 || n == 0x1680
        || (0x2000 <= n && n <= 0x200a) || n == 0x2028 || n == 0x2029 || n == 0x202f
        || n == 0x205f || n == 0x3000
}

/// The characters of `s`, in order.
pub fn chars_of(s: &str) -> (v: Vec<char>)
    ensures
        v@ == s@,
{
    let n = s.unicode_len();
    let mut v: Vec<char> = Vec::new();
    let mut i: usize = 0;
    while i < n
        invariant
            n == s@.len(),
            i <= n,
            v@ == s@.subrange(0, i as int),
        decreases n - i,
    {
        v.push(s.get_char(i));
        i += 1;
        assert(v@ =~= s@.subrange(0, i as int));
    }
    assert(v@ =~= s@);
    v
}


/// A copy of `s[from..to]`.
pub fn slice(s: &Vec<char>, from: usize, to: usize) -> (r: Vec<char>)
    requires
        from <= to <= s@.len(),
    ensures
        r@ == s@.subrange(from as int, to as int),
{
    let mut r: Vec<char> = Vec::new();
    let mut i: usize = from;
    while i < to
        invariant
            from <= i <= to <= s@.len(),
            r@ == s@.subrange(from as int, i as int),
        decreases to - i,
    {
        r.push(s[i]);
        i += 1;
        assert(r@ =~= s@.subrange(from as int, i as int));
    }
    r
}

/// A copy of `s` followed by `t`.
pub fn concat(s: &Vec<char>, t: &Vec<char>) -> (r: Vec<char>)
    ensures
        r@ == s@ + t@,
{
    let mut r = slice(s, 0, s.len());
    let mut i: usize = 0;
    while i < t.len()
        invariant
            i <= t@.len(),
            r@ == s@ + t@.subrange(0, i as int),
        decreases t.len() - i,
    {
        r.push(t[i]);
        i += 1;
        assert(r@ =~= s@ + t@.subrange(0, i as int));
    }
    assert(t@.subrange(0, t@.len() as int) =~= t@);
    r
}

proof fn lemma_trim_start_step(s: Seq<char>, i: int)
    requires
        0 <= i < s.len(),
        is_ws(s[i]),
    ensures
        trim_start(s.subrange(i, s.len() as int)) == trim_start(s.subrange(i + 1, s.len() as int)),
{
    assert(s.subrange(i, s.len() as int).drop_first() =~= s.subrange(i + 1, s.len() as int));
}

proof fn lemma_trim_end_step(s: Seq<char>, j: int)
    requires
        0 < j <= s.len(),
        is_ws(s[j - 1]),
    ensures
        trim_end(s.subrange(0, j)) == trim_end(s.subrange(0, j - 1)),
{
    assert(s.subrange(0, j).drop_last() =~= s.subrange(0, j - 1));
}

/// The index of the first non-whitespace character of `s`, or its length.
fn leading_ws_end(s: &Vec<char>) -> (i: usize)
    ensures
        i <= s@.len(),
        trim_start(s@) == s@.subrange(i as int, s@.len() as int),
{
    let mut i: usize = 0;
    assert(s@.subrange(0, s@.len() as int) =~= s@);
    while i < s.len() && is_whitespace(s[i])
        invariant
            i <= s@.len(),
            trim_start(s@) == trim_start(s@.subrange(i as int, s@.len() as int)),
        decreases s.len() - i,
    {
        proof {
            lemma_trim_start_step(s@, i as int);
        }
        i += 1;
    }
    i
}

/// The index just past the last non-whitespace character of `s[..end]`, or 0.
fn trailing_ws_start(s: &Vec<char>, end: usize) -> (j: usize)
    requires
        end <= s@.len(),
    ensures
        j <= end,
        trim_end(s@.subrange(0, end as int)) == s@.subrange(0, j as int),
{
    let mut j: usize = end;
    while j > 0 && is_whitespace(s[j - 1])
        invariant
            j <= end <= s@.len(),
            trim_end(s@.subrange(0, end as int)) == trim_end(s@.subrange(0, j as int)),
        decreases j,
    {
        proof {
            lemma_trim_end_step(s@, j as int);
        }
        j -= 1;
    }
    proof {
        if j > 0 {
            assert(s@.subrange(0, j as int).last() == s@[j - 1]);
        }
    }
    j
}

/// `s` with leading whitespace removed.
pub fn trim_start_of(s: &Vec<char>) -> (r: Vec<char>)
    ensures
        r@ == trim_start(s@),
{
    let i = leading_ws_end(s);
    slice(s, i, s.len())
}

/// `s` with whitespace removed at both ends.
pub fn trim_of(s: &Vec<char>) -> (r: Vec<char>)
    ensures
        r@ == trim(s@),
{
    let t = trim_start_of(s);
    let j = trailing_ws_start(&t, t.len());
    assert(t@.subrange(0, t@.len() as int) =~= t@);
    slice(&t, 0, j)
}

/// Whether `p` occurs in `s` at index `i`.
fn occurs_at_exec(s: &Vec<char>, p: &Vec<char>, i: usize) -> (b: bool)
    requires
        p@.len() <= s@.len(),
        i <= s@.len() - p@.len(),
    ensures
        b == occurs_at(s@, p@, i as int),
{
    let n = s.len();
    let mut k: usize = 0;
    while k < p.len()
        invariant
            n == s@.len(),
            p@.len() <= s@.len(),
            i <= s@.len() - p@.len(),
            k <= p@.len(),
            s@.subrange(i as int, i + k) =~= p@.subrange(0, k as int),
        decreases p.len() - k,
    {
        assert(i + k < s@.len());
        if s[i + k] != p[k] {
            assert(s@.subrange(i as int, i + p@.len())[k as int] != p@[k as int]);
            return false;
        }
        k += 1;
        assert(s@.subrange(i as int, i + k) =~= p@.subrange(0, k as int));
    }
    assert(p@.subrange(0, p@.len() as int) =~= p@);
    true
}

/// The first index where `p` occurs in `s` (`str::find`).
pub fn find_in(s: &Vec<char>, p: &Vec<char>) -> (r: Option<usize>)
    ensures
        match r {
            Some(i) => find(s@, p@) == Some(i as int) && occurs_at(s@, p@, i as int),
            None => find(s@, p@) is None,
        },
{
    if p.len() > s.len() {
        return None;
    }
    let bound = s.len() - p.len();
    let mut i: usize = 0;
    while i < bound
        invariant
            p@.len() <= s@.len(),
            bound == s@.len() - p@.len(),
            i <= bound,
            find(s@, p@) == find_from(s@, p@, i as int),
        decreases bound - i,
    {
        if occurs_at_exec(s, p, i) {
            return Some(i);
        }
        i += 1;
    }
    if occurs_at_exec(s, p, bound) {
        Some(bound)
    } else {
        assert(find_from(s@, p@, bound + 1) is None);
        None
    }
}

/// Whether `s[..end]` ends with `p`.
fn ends_with_at(s: &Vec<char>, end: usize, p: &Vec<char>) -> (b: bool)
    requires
        end <= s@.len(),
    ensures
        b == ends_with(s@.subrange(0, end as int), p@),
{
    if p.len() > end {
        return false;
    }
    let start = end - p.len();
    let b = occurs_at_exec(s, p, start);
    assert(s@.subrange(0, end as int).subrange(start as int, end as int)
        =~= s@.subrange(start as int, end as int));
    b
}

/// Whether `s` ends with `p` (`str::ends_with`).
pub fn ends_with_exec(s: &Vec<char>, p: &Vec<char>) -> (b: bool)
    ensures
        b == ends_with(s@, p@),
{
    assert(s@.subrange(0, s@.len() as int) =~= s@);
    ends_with_at(s, s.len(), p)
}

/// Whether `s` starts with `p` (`str::starts_with`).
pub fn starts_with_exec(s: &Vec<char>, p: &Vec<char>) -> (b: bool)
    ensures
        b == starts_with(s@, p@),
{
    if p.len() > s.len() {
        return false;
    }
    let b = occurs_at_exec(s, p, 0);
    b
}

/// `s` with every trailing repetition of `p` removed.
pub fn trim_end_matches_of(s: &Vec<char>, p: &Vec<char>) -> (r: Vec<char>)
    ensures
        r@ == trim_end_matches(s@, p@),
{
    let mut end: usize = s.len();
    assert(s@.subrange(0, s@.len() as int) =~= s@);
    while p.len() > 0 && ends_with_at(s, end, p)
        invariant
            end <= s@.len(),
            trim_end_matches(s@, p@) == trim_end_matches(s@.subrange(0, end as int), p@),
        decreases end,
    {
        assert(s@.subrange(0, end as int).subrange(0, end - p@.len())
            =~= s@.subrange(0, end - p@.len()));
        end -= p.len();
    }
    slice(s, 0, end)
}

/// `s` with every leading `c` removed.
pub fn trim_start_char_of(s: &Vec<char>, c: char) -> (r: Vec<char>)
    ensures
        r@ == trim_start_char(s@, c),
{
    let mut i: usize = 0;
    assert(s@.subrange(0, s@.len() as int) =~= s@);
    while i < s.len() && s[i] == c
        invariant
            i <= s@.len(),
            trim_start_char(s@, c) == trim_start_char(s@.subrange(i as int, s@.len() as int), c),
        decreases s.len() - i,
    {
        assert(s@.subrange(i as int, s@.len() as int).drop_first()
            =~= s@.subrange(i + 1, s@.len() as int));
        i += 1;
    }
    slice(s, i, s.len())
}

/// The first whitespace-separated word of `s`, or the empty text.
pub fn first_word_of(s: &Vec<char>) -> (r: Vec<char>)
    ensures
        r@ == first_word(s@),
{
    let t = trim_start_of(s);
    let mut j: usize = 0;
    assert(t@.subrange(0, t@.len() as int) =~= t@);
    assert(t@.subrange(0, 0) + take_until_ws(t@) =~= take_until_ws(t@));
    while j < t.len() && !is_whitespace(t[j])
        invariant
            j <= t@.len(),
            take_until_ws(t@) == t@.subrange(0, j as int) + take_until_ws(
                t@.subrange(j as int, t@.len() as int),
            ),
        decreases t.len() - j,
    {
        let ghost rest = t@.subrange(j as int, t@.len() as int);
        assert(rest.drop_first() =~= t@.subrange(j + 1, t@.len() as int));
        assert(t@.subrange(0, j + 1) =~= t@.subrange(0, j as int) + seq![rest[0]]);
        j += 1;
    }
    proof {
        let rest = t@.subrange(j as int, t@.len() as int);
        assert(take_until_ws(rest) =~= Seq::<char>::empty());
        assert(t@.subrange(0, j as int) + Seq::<char>::empty() =~= t@.subrange(0, j as int));
    }
    slice(&t, 0, j)
}

/// An ASCII decimal digit.
pub open spec fn is_digit(c: char) -> bool {
    48 <= c as u32 && c as u32 <= 57
}

/// The value of an ASCII decimal digit.
pub open spec fn digit_value(c: char) -> nat {
    (c as u32 - 48) as nat
}

/// Every character of `s` is an ASCII decimal digit.
pub open spec fn all_digits(s: Seq<char>) -> bool {
    forall|i: int| 0 <= i < s.len() ==> is_digit(#[trigger] s[i])
}

/// The number that the decimal digits `s` write.
pub open spec fn digits_value(s: Seq<char>) -> nat
    decreases s.len(),
{
    if s.len() == 0 {
        0
    } else {
        digits_value(s.drop_last()) * 10 + digit_value(s.last())
    }
}

/// `s` without one leading `+`, where it has one.
pub open spec fn without_plus(s: Seq<char>) -> Seq<char> {
    if s.len() > 0 && s[0] == '+' {
        s.drop_first()
    } else {
        s
    }
}

/// What `str::parse` gives for an unsigned integer type whose largest value is
/// `max`: an optional `+`, then at least one ASCII digit and nothing else, and a
/// value no larger than `max`.
pub open spec fn parse_unsigned(s: Seq<char>, max: nat) -> Option<nat> {
    let d = without_plus(s);
    if d.len() > 0 && all_digits(d) && digits_value(d) <= max {
        Some(digits_value(d))
    } else {
        None
    }
}

/// `parse_unsigned(s, max).unwrap_or(0)`.
pub open spec fn parse_or_zero(s: Seq<char>, max: nat) -> nat {
    match parse_unsigned(s, max) {
        Some(v) => v,
        None => 0,
    }
}

/// A longer run of digits writes at least the value of its prefix.
proof fn lemma_digits_value_prefix(s: Seq<char>, k: int)
    requires
        0 <= k <= s.len(),
    ensures
        digits_value(s.subrange(0, k)) <= digits_value(s),
    decreases s.len(),
{
    if k < s.len() {
        assert(s.drop_last() =~= s.subrange(0, s.len() - 1));
        assert(s.subrange(0, s.len() - 1).subrange(0, k) =~= s.subrange(0, k));
        lemma_digits_value_prefix(s.drop_last(), k);
    } else {
        assert(s.subrange(0, k) =~= s);
    }
}

/// Parses an unsigned decimal no larger than `max`, as `str::parse` does.
fn parse_bounded(s: &Vec<char>, max: u64) -> (r: Option<u64>)
    ensures
        match r {
            Some(v) => parse_unsigned(s@, max as nat) == Some(v as nat),
            None => parse_unsigned(s@, max as nat) is None,
        },
{
    let n = s.len();
    let start: usize = if n > 0 && s[0] == '+' { 1 } else { 0 };
    let ghost d = without_plus(s@);
    assert(d =~= s@.subrange(start as int, n as int));
    if start == n {
        return None;
    }
    let mut acc: u64 = 0;
    let mut i: usize = start;
    while i < n
        invariant
            n == s@.len(),
            start <= i <= n,
            start < n,
            d == without_plus(s@),
            d == s@.subrange(start as int, n as int),
            all_digits(d.subrange(0, i - start)),
            acc as nat == digits_value(d.subrange(0, i - start)),
            acc <= max,
        decreases n - i,
    {
        let c = s[i];
        let code: u32 = c as u32;
        assert(d[i - start] == c);
        if code < 48 || code > 57 {
            assert(!is_digit(d[i - start]));
            assert(!all_digits(d));
            return None;
        }
        let next: u128 = (acc as u128) * 10 + (code - 48) as u128;
        proof {
            let k = i - start;
            assert(d.subrange(0, k + 1).drop_last() =~= d.subrange(0, k));
            assert(d.subrange(0, k + 1).last() == c);
        }
        if next > max as u128 {
            proof {
                lemma_digits_value_prefix(d, (i + 1 - start) as int);
            }
            return None;
        }
        proof {
            let k = i - start;
            assert forall|j: int| 0 <= j < k + 1 implies is_digit(#[trigger] d.subrange(0, k + 1)[j]) by {
                if j < k {
                    assert(d.subrange(0, k + 1)[j] == d.subrange(0, k)[j]);
                }
            }
        }
        acc = next as u64;
        i += 1;
    }
    assert(d.subrange(0, n - start) =~= d);
    Some(acc)
}

/// `str::parse::<u64>`, as `Some` on success.
pub fn parse_u64(s: &Vec<char>) -> (r: Option<u64>)
    ensures
        match r {
            Some(v) => parse_unsigned(s@, u64::MAX as nat) == Some(v as nat),
            None => parse_unsigned(s@, u64::MAX as nat) is None,
        },
{
    parse_bounded(s, u64::MAX)
}

/// `str::parse::<u32>`, as `Some` on success.
pub fn parse_u32(s: &Vec<char>) -> (r: Option<u32>)
    ensures
        match r {
            Some(v) => parse_unsigned(s@, u32::MAX as nat) == Some(v as nat),
            None => parse_unsigned(s@, u32::MAX as nat) is None,
        },
{
    match parse_bounded(s, u32::MAX as u64) {
        Some(v) => Some(v as u32),
        None => None,
    }
}

/// The pieces of `s` between the occurrences of `c` (`str::split` with a char).
pub open spec fn split_char(s: Seq<char>, c: char) -> Seq<Seq<char>>
    decreases s.len(),
{
    if s.len() == 0 {
        seq![Seq::<char>::empty()]
    } else {
        let pre = split_char(s.drop_last(), c);
        if s.last() == c {
            pre.push(Seq::<char>::empty())
        } else {
            pre.update(pre.len() - 1, pre.last().push(s.last()))
        }
    }
}

/// Splitting always yields at least one piece.
pub proof fn lemma_split_char_nonempty(s: Seq<char>, c: char)
    ensures
        split_char(s, c).len() >= 1,
    decreases s.len(),
{
    if s.len() > 0 {
        lemma_split_char_nonempty(s.drop_last(), c);
    }
}

/// The pieces of `s` between the occurrences of `c`.
pub fn split_on(s: &Vec<char>, c: char) -> (r: Vec<Vec<char>>)
    ensures
        r@.len() == split_char(s@, c).len(),
        forall|j: int| 0 <= j < r@.len() ==> (#[trigger] r@[j])@ == split_char(s@, c)[j],
{
    let n = s.len();
    let mut pieces: Vec<Vec<char>> = Vec::new();
    let mut cur: Vec<char> = Vec::new();
    let mut i: usize = 0;
    assert(s@.subrange(0, 0) =~= Seq::<char>::empty());
    while i < n
        invariant
            n == s@.len(),
            i <= n,
            pieces@.len() + 1 == split_char(s@.subrange(0, i as int), c).len(),
            forall|j: int|
                0 <= j < pieces@.len() ==> (#[trigger] pieces@[j])@ == split_char(
                    s@.subrange(0, i as int),
                    c,
                )[j],
            cur@ == split_char(s@.subrange(0, i as int), c).last(),
        decreases n - i,
    {
        let ghost pre = split_char(s@.subrange(0, i as int), c);
        proof {
            lemma_split_char_nonempty(s@.subrange(0, i as int), c);
            assert(s@.subrange(0, i + 1).drop_last() =~= s@.subrange(0, i as int));
            assert(s@.subrange(0, i + 1).last() == s@[i as int]);
        }
        if s[i] == c {
            let done = cur;
            pieces.push(done);
            cur = Vec::new();
        } else {
            cur.push(s[i]);
        }
        i += 1;
        proof {
            let post = split_char(s@.subrange(0, i as int), c);
            assert forall|j: int| 0 <= j < pieces@.len() implies (#[trigger] pieces@[j])@ == post[j] by {
                assert(pre[j] == post[j]);
            }
        }
    }
    assert(s@.subrange(0, n as int) =~= s@);
    pieces.push(cur);
    pieces
}

/// Appends `c` to `s` (`String::push`).
#[verifier::external_body]
fn push_char(s: &mut String, c: char)
    ensures
        final(s)@ == old(s)@.push(c),
{
    s.push(c);
}

/// A `String` holding the characters of `v`.
pub fn string_of(v: &Vec<char>) -> (s: String)
    ensures
        s@ == v@,
{
    let mut s = String::new();
    let mut i: usize = 0;
    while i < v.len()
        invariant
            i <= v@.len(),
            s@ == v@.subrange(0, i as int),
        decreases v.len() - i,
    {
        push_char(&mut s, v[i]);
        i += 1;
        assert(s@ =~= v@.subrange(0, i as int));
    }
    assert(v@.subrange(0, v@.len() as int) =~= v@);
    s
}

/// Whether `a` and `b` hold the same characters (`==` on `str`).
pub fn same_text(a: &str, b: &str) -> (r: bool)
    ensures
        r == (a@ == b@),
{
    let x = chars_of(a);
    let y = chars_of(b);
    if x.len() != y.len() {
        return false;
    }
    let mut i: usize = 0;
    while i < x.len()
        invariant
            x@ == a@,
            y@ == b@,
            x@.len() == y@.len(),
            i <= x@.len(),
            x@.subrange(0, i as int) == y@.subrange(0, i as int),
        decreases x.len() - i,
    {
        if x[i] != y[i] {
            assert(x@[i as int] != y@[i as int]);
            return false;
        }
        i += 1;
        assert(x@.subrange(0, i as int) =~= y@.subrange(0, i as int)) by {
            assert forall|j: int| 0 <= j < i implies x@.subrange(0, i as int)[j] == y@.subrange(0, i as int)[j] by {
                if j < i - 1 {
                    assert(x@.subrange(0, i - 1)[j] == y@.subrange(0, i - 1)[j]);
                }
            }
        }
    }
    assert(x@ =~= x@.subrange(0, x@.len() as int));
    assert(y@ =~= y@.subrange(0, y@.len() as int));
    true
}

/// Trimming never lengthens a text.
pub proof fn lemma_trim_shortens(s: Seq<char>)
    ensures
        trim_start(s).len() <= s.len(),
        trim_end(s).len() <= s.len(),
        trim(s).len() <= s.len(),
    decreases s.len(),
{
    if s.len() > 0 {
        lemma_trim_shortens(s.drop_first());
        lemma_trim_shortens(s.drop_last());
    }
    lemma_trim_end_shortens(trim_start(s));
}

proof fn lemma_trim_end_shortens(s: Seq<char>)
    ensures
        trim_end(s).len() <= s.len(),
    decreases s.len(),
{
    if s.len() > 0 {
        lemma_trim_end_shortens(s.drop_last());
    }
}

/// Appending text free of the separator extends the last piece.
pub proof fn lemma_split_char_append_plain(x: Seq<char>, y: Seq<char>, c: char)
    requires
        forall|i: int| 0 <= i < y.len() ==> y[i] != c,
    ensures
        split_char(x + y, c) == split_char(x, c).update(
            split_char(x, c).len() - 1,
            split_char(x, c).last() + y,
        ),
    decreases y.len(),
{
    lemma_split_char_nonempty(x, c);
    let sx = split_char(x, c);
    if y.len() == 0 {
        assert(x + y =~= x);
        assert(sx.last() + y =~= sx.last());
        assert(sx.update(sx.len() - 1, sx.last() + y) =~= sx);
    } else {
        let y0 = y.drop_last();
        assert forall|i: int| 0 <= i < y0.len() implies y0[i] != c by {
            assert(y0[i] == y[i]);
        }
        lemma_split_char_append_plain(x, y0, c);
        assert((x + y).drop_last() =~= x + y0);
        assert((x + y).last() == y[y.len() - 1]);
        lemma_split_char_nonempty(x + y0, c);
        assert(split_char(x + y, c) =~= sx.update(sx.len() - 1, sx.last() + y)) by {
            assert((sx.last() + y0).push(y.last()) =~= sx.last() + y);
        }
    }
}

/// Appending the separator starts a new, empty piece.
pub proof fn lemma_split_char_push_separator(x: Seq<char>, c: char)
    ensures
        split_char(x.push(c), c) == split_char(x, c).push(Seq::<char>::empty()),
{
    assert(x.push(c).drop_last() =~= x);
}

/// Text free of the separator is a single piece.
pub proof fn lemma_split_char_plain(x: Seq<char>, c: char)
    requires
        forall|i: int| 0 <= i < x.len() ==> x[i] != c,
    ensures
        split_char(x, c) == seq![x],
{
    lemma_split_char_append_plain(Seq::<char>::empty(), x, c);
    assert(Seq::<char>::empty() + x =~= x);
    assert(split_char(Seq::<char>::empty(), c).update(0, Seq::<char>::empty() + x) =~= seq![x]);
}

/// The last index of `c` in `s` (`str::rfind` with a char).
pub open spec fn last_index_of(s: Seq<char>, c: char) -> Option<int>
    decreases s.len(),
{
    if s.len() == 0 {
        None
    } else if s.last() == c {
        Some(s.len() - 1)
    } else {
        last_index_of(s.drop_last(), c)
    }
}

/// The last index of `c` in `s`.
pub fn rfind_char(s: &Vec<char>, c: char) -> (r: Option<usize>)
    ensures
        match r {
            Some(i) => last_index_of(s@, c) == Some(i as int) && i < s@.len(),
            None => last_index_of(s@, c) is None,
        },
{
    let mut j: usize = s.len();
    assert(s@.subrange(0, j as int) =~= s@);
    while j > 0
        invariant
            j <= s@.len(),
            last_index_of(s@, c) == last_index_of(s@.subrange(0, j as int), c),
        decreases j,
    {
        assert(s@.subrange(0, j as int).last() == s@[j - 1]);
        if s[j - 1] == c {
            return Some(j - 1);
        }
        assert(s@.subrange(0, j as int).drop_last() =~= s@.subrange(0, j - 1));
        j -= 1;
    }
    None
}

/// Whether every character of `s` is an ASCII digit.
pub fn all_digits_exec(s: &Vec<char>) -> (b: bool)
    ensures
        b == all_digits(s@),
{
    let mut i: usize = 0;
    while i < s.len()
        invariant
            i <= s@.len(),
            forall|k: int| 0 <= k < i ==> is_digit(#[trigger] s@[k]),
        decreases s.len() - i,
    {
        let code: u32 = s[i] as u32;
        if code < 48 || code > 57 {
            assert(!is_digit(s@[i as int]));
            return false;
        }
        i += 1;
    }
    true
}

/// Leading whitespace is dropped by `trim_start` up to the first character
/// that is not whitespace, and nothing after it.
pub proof fn lemma_trim_start_ws_prefix(w: Seq<char>, s: Seq<char>)
    requires
        forall|i: int| 0 <= i < w.len() ==> is_ws(#[trigger] w[i]),
        s.len() > 0 ==> !is_ws(s[0]),
    ensures
        trim_start(w + s) == s,
    decreases w.len(),
{
    if w.len() > 0 {
        assert((w + s).drop_first() =~= w.drop_first() + s);
        lemma_trim_start_ws_prefix(w.drop_first(), s);
    } else {
        assert(w + s =~= s);
    }
}

/// Trailing whitespace is dropped by `trim_end` back to the last character
/// that is not whitespace, and nothing before it.
pub proof fn lemma_trim_end_ws_suffix(s: Seq<char>, w: Seq<char>)
    requires
        forall|i: int| 0 <= i < w.len() ==> is_ws(#[trigger] w[i]),
        s.len() > 0 ==> !is_ws(s.last()),
    ensures
        trim_end(s + w) == s,
    decreases w.len(),
{
    if w.len() > 0 {
        assert((s + w).drop_last() =~= s + w.drop_last());
        lemma_trim_end_ws_suffix(s, w.drop_last());
    } else {
        assert(s + w =~= s);
    }
}

/// `trim` keeps exactly the text between the surrounding whitespace, its
/// inner whitespace included.
pub proof fn lemma_trim_surrounded(w1: Seq<char>, core: Seq<char>, w2: Seq<char>)
    requires
        forall|i: int| 0 <= i < w1.len() ==> is_ws(#[trigger] w1[i]),
        forall|i: int| 0 <= i < w2.len() ==> is_ws(#[trigger] w2[i]),
        core.len() > 0,
        !is_ws(core[0]),
        !is_ws(core.last()),
    ensures
        trim(w1 + core + w2) == core,
{
    assert(w1 + core + w2 =~= w1 + (core + w2));
    assert((core + w2)[0] == core[0]);
    lemma_trim_start_ws_prefix(w1, core + w2);
    lemma_trim_end_ws_suffix(core, w2);
}

/// A text without whitespace is its own first word.
pub proof fn lemma_no_ws_word(w: Seq<char>)
    requires
        forall|i: int| 0 <= i < w.len() ==> !is_ws(#[trigger] w[i]),
    ensures
        first_word(w) == w,
{
    assert(trim_start(w) == w);
    lemma_take_until_ws_all(w);
}

proof fn lemma_take_until_ws_all(w: Seq<char>)
    requires
        forall|i: int| 0 <= i < w.len() ==> !is_ws(#[trigger] w[i]),
    ensures
        take_until_ws(w) == w,
    decreases w.len(),
{
    if w.len() > 0 {
        assert(!is_ws(w[0]));
        assert forall|i: int| 0 <= i < w.drop_first().len() implies !is_ws(
            #[trigger] w.drop_first()[i],
        ) by {
            assert(w.drop_first()[i] == w[i + 1]);
        }
        lemma_take_until_ws_all(w.drop_first());
        assert(seq![w[0]] + w.drop_first() =~= w);
    }
}

/// Where `p` occurs at `k` and nowhere before, `find` gives `k`.
pub proof fn lemma_find_first(s: Seq<char>, p: Seq<char>, k: int)
    requires
        occurs_at(s, p, k),
        forall|i: int| 0 <= i < k ==> !#[trigger] occurs_at(s, p, i),
    ensures
        find(s, p) == Some(k),
{
    lemma_find_from_first(s, p, 0, k);
}

proof fn lemma_find_from_first(s: Seq<char>, p: Seq<char>, i: int, k: int)
    requires
        0 <= i <= k,
        occurs_at(s, p, k),
        forall|j: int| 0 <= j < k ==> !#[trigger] occurs_at(s, p, j),
    ensures
        find_from(s, p, i) == Some(k),
    decreases k - i,
{
    if i < k {
        assert(!occurs_at(s, p, i));
        lemma_find_from_first(s, p, i + 1, k);
    }
}

/// An occurrence of `p` at `i` puts `p`'s characters at `i` onward.
pub proof fn lemma_occurs_chars(s: Seq<char>, p: Seq<char>, i: int)
    requires
        occurs_at(s, p, i),
    ensures
        forall|j: int| 0 <= j < p.len() ==> s[i + j] == #[trigger] p[j],
{
    assert forall|j: int| 0 <= j < p.len() implies s[i + j] == #[trigger] p[j] by {
        assert(s.subrange(i, i + p.len())[j] == s[i + j]);
    }
}

/// A word without whitespace, followed by nothing or by whitespace, is the
/// first word of the text.
pub proof fn lemma_first_word_prefix(w: Seq<char>, rest: Seq<char>)
    requires
        w.len() > 0,
        forall|i: int| 0 <= i < w.len() ==> !is_ws(#[trigger] w[i]),
        rest.len() > 0 ==> is_ws(rest[0]),
    ensures
        first_word(w + rest) == w,
{
    assert((w + rest)[0] == w[0]);
    assert(trim_start(w + rest) == w + rest);
    lemma_take_until_ws_prefix(w, rest);
}

proof fn lemma_take_until_ws_prefix(w: Seq<char>, rest: Seq<char>)
    requires
        forall|i: int| 0 <= i < w.len() ==> !is_ws(#[trigger] w[i]),
        rest.len() > 0 ==> is_ws(rest[0]),
    ensures
        take_until_ws(w + rest) == w,
    decreases w.len(),
{
    if w.len() > 0 {
        let t = w + rest;
        assert(t[0] == w[0]);
        assert(!is_ws(w[0]));
        assert(t.drop_first() =~= w.drop_first() + rest);
        assert forall|i: int| 0 <= i < w.drop_first().len() implies !is_ws(
            #[trigger] w.drop_first()[i],
        ) by {
            assert(w.drop_first()[i] == w[i + 1]);
        }
        lemma_take_until_ws_prefix(w.drop_first(), rest);
        assert(seq![w[0]] + w.drop_first() =~= w);
    } else {
        assert(w + rest =~= rest);
    }
}

} // verus!
