//! Reading of the lines that yt-dlp prints while it works.
use vstd::prelude::*;
use crate::text::{
    chars_of, contains, ends_with, ends_with_exec, find, find_in, first_word, first_word_of,
    lemma_split_char_append_plain, lemma_split_char_plain, lemma_split_char_push_separator,
    parse_or_zero, parse_u32, parse_u64, parse_unsigned, slice, split_char, split_on, starts_with,
    starts_with_exec, string_of, trim, trim_end_matches, trim_end_matches_of, trim_of,
    trim_start_char, trim_start_char_of, last_index_of, rfind_char, all_digits, all_digits_exec,
    is_ws, occurs_at, lemma_no_ws_word,
};

verus! {

/// The binary multiple in which yt-dlp writes a size or a rate.
#[derive(Clone, Copy, Debug, PartialEq, Eq, Structural)]
pub enum Scale {
    /// KiB or KB.
    Kibi,
    /// MiB or MB.
    Mebi,
    /// GiB or GB.
    Gibi,
}

/// A number as yt-dlp wrote it, with the multiple that followed it.
pub struct Quantity {
    pub number: String,
    pub scale: Scale,
}

/// What a `[download]` progress line says, with its numbers still as text.
pub struct ProgressScan {
    /// The text before `%`, trimmed.
    pub percent_text: String,
    /// The transfer rate after ` at `, where it is written in KiB/s, MiB/s or GiB/s.
    pub speed: Option<Quantity>,
    /// The time left after `ETA `, in seconds, where it is written as `m:s` or `h:m:s`.
    pub eta_secs: Option<u64>,
    /// The total size after ` of `, where it is written in KiB, MiB or GiB.
    pub total: Option<Quantity>,
}

/// The mathematical content of a [`ProgressScan`].
pub struct ScanModel {
    pub percent_text: Seq<char>,
    pub speed: Option<(Seq<char>, Scale)>,
    pub eta_secs: Option<u64>,
    pub total: Option<(Seq<char>, Scale)>,
}

impl Quantity {
    pub open spec fn model(&self) -> (Seq<char>, Scale) {
        (self.number@, self.scale)
    }
}

pub open spec fn quantity_model(q: Option<Quantity>) -> Option<(Seq<char>, Scale)> {
    match q {
        Some(q) => Some(q.model()),
        None => None,
    }
}

impl View for ProgressScan {
    type V = ScanModel;

    open spec fn view(&self) -> ScanModel {
        ScanModel {
            percent_text: self.percent_text@,
            speed: quantity_model(self.speed),
            eta_secs: self.eta_secs,
            total: quantity_model(self.total),
        }
    }
}

/// The bytes in one unit of a multiple: 2^10, 2^20 or 2^30.
pub open spec fn bytes_per_unit_of(scale: Scale) -> u64 {
    match scale {
        Scale::Kibi => 1024,
        Scale::Mebi => 1_048_576,
        Scale::Gibi => 1_073_741_824,
    }
}

impl Scale {
    /// The bytes in one unit of this multiple.
    pub fn bytes_per_unit(&self) -> (n: u64)
        ensures
            n == bytes_per_unit_of(*self),
    {
        match self {
            Scale::Kibi => 1024,
            Scale::Mebi => 1_048_576,
            Scale::Gibi => 1_073_741_824,
        }
    }
}

pub open spec fn download_tag() -> Seq<char> {
    seq!['[', 'd', 'o', 'w', 'n', 'l', 'o', 'a', 'd', ']']
}

pub open spec fn at_sep() -> Seq<char> {
    seq![' ', 'a', 't', ' ']
}

pub open spec fn of_sep() -> Seq<char> {
    seq![' ', 'o', 'f', ' ']
}

pub open spec fn eta_tag() -> Seq<char> {
    seq!['E', 'T', 'A', ' ']
}

/// The unit texts that yt-dlp writes for the multiple `scale`, binary and
/// decimal, followed by `/s` for a rate.
pub open spec fn unit_text(scale: Scale, binary: bool, rate: bool) -> Seq<char> {
    let head = match scale {
        Scale::Kibi => seq!['K'],
        Scale::Mebi => seq!['M'],
        Scale::Gibi => seq!['G'],
    };
    let mid = if binary {
        seq!['i', 'B']
    } else {
        seq!['B']
    };
    let tail = if rate {
        seq!['/', 's']
    } else {
        Seq::<char>::empty()
    };
    head + mid + tail
}

/// `tok` read as a number in the multiple `scale`, where it ends in one of that
/// multiple's unit texts: the number is `tok` with the binary unit, then the
/// decimal unit, trimmed off its end as often as they occur.
pub open spec fn quantity_in(tok: Seq<char>, scale: Scale, rate: bool) -> Option<(Seq<char>, Scale)> {
    let bin = unit_text(scale, true, rate);
    let dec = unit_text(scale, false, rate);
    if ends_with(tok, bin) || ends_with(tok, dec) {
        Some((trim_end_matches(trim_end_matches(tok, bin), dec), scale))
    } else {
        None
    }
}

/// A size or rate word, tried in the order MiB, KiB, GiB for a rate and the
/// same order for a size.
pub open spec fn quantity_of(tok: Seq<char>, rate: bool) -> Option<(Seq<char>, Scale)> {
    if quantity_in(tok, Scale::Mebi, rate) is Some {
        quantity_in(tok, Scale::Mebi, rate)
    } else if quantity_in(tok, Scale::Kibi, rate) is Some {
        quantity_in(tok, Scale::Kibi, rate)
    } else {
        quantity_in(tok, Scale::Gibi, rate)
    }
}

/// The rate after the first ` at ` of `rest`.
pub open spec fn speed_of(rest: Seq<char>) -> Option<(Seq<char>, Scale)> {
    match find(rest, at_sep()) {
        Some(i) => quantity_of(first_word(rest.subrange(i + 4, rest.len() as int)), true),
        None => None,
    }
}

/// The total size after the first ` of ` of `rest`, past any `~`.
pub open spec fn total_of(rest: Seq<char>) -> Option<(Seq<char>, Scale)> {
    match find(rest, of_sep()) {
        Some(i) => quantity_of(
            first_word(trim(trim_start_char(rest.subrange(i + 4, rest.len() as int), '~'))),
            false,
        ),
        None => None,
    }
}

/// A field of a time, as `str::parse::<u64>` reads it, 0 where it fails.
pub open spec fn time_field(s: Seq<char>) -> nat {
    parse_or_zero(s, u64::MAX as nat)
}

/// The seconds that `m:s` or `h:m:s` writes, reduced modulo 2^64 as `u64`
/// arithmetic wraps; `None` for any other number of fields.
pub open spec fn eta_value(tok: Seq<char>) -> Option<u64> {
    let parts = split_char(tok, ':');
    if parts.len() == 2 {
        Some(((time_field(parts[0]) * 60 + time_field(parts[1])) % 0x1_0000_0000_0000_0000) as u64)
    } else if parts.len() == 3 {
        Some(
            ((time_field(parts[0]) * 3600 + time_field(parts[1]) * 60 + time_field(parts[2]))
                % 0x1_0000_0000_0000_0000) as u64,
        )
    } else {
        None
    }
}

/// The time left after the first `ETA ` of `rest`.
pub open spec fn eta_of(rest: Seq<char>) -> Option<u64> {
    match find(rest, eta_tag()) {
        Some(i) => eta_value(first_word(rest.subrange(i + 4, rest.len() as int))),
        None => None,
    }
}

/// What a progress line says: it must start with `[download]`, and the rest,
/// trimmed, must hold a `%`.
pub open spec fn scan_line(line: Seq<char>) -> Option<ScanModel> {
    if !starts_with(line, download_tag()) {
        None
    } else {
        let rest = trim(line.subrange(10, line.len() as int));
        match find(rest, seq!['%']) {
            Some(p) => Some(
                ScanModel {
                    percent_text: trim(rest.subrange(0, p)),
                    speed: speed_of(rest),
                    eta_secs: eta_of(rest),
                    total: total_of(rest),
                },
            ),
            None => None,
        }
    }
}

/// A character that may stand in a number as yt-dlp writes it.
pub open spec fn is_number_char(c: char) -> bool {
    ('0' <= c && c <= '9') || c == '.'
}

/// `ends_with(s, p)` fails where one aligned character differs.
proof fn lemma_not_ends_with(s: Seq<char>, p: Seq<char>, k: int)
    requires
        0 < k <= p.len(),
        k <= s.len() ==> s[s.len() - k] != p[p.len() - k],
    ensures
        !ends_with(s, p),
{
    if ends_with(s, p) {
        assert(s.subrange(s.len() - p.len(), s.len() as int)[p.len() - k] == s[s.len() - k]);
    }
}

/// Trimming a unit off a number followed by that unit leaves the number.
proof fn lemma_trim_unit(n: Seq<char>, u: Seq<char>)
    requires
        forall|i: int| 0 <= i < n.len() ==> is_number_char(#[trigger] n[i]),
        u.len() > 0,
        !is_number_char(u.last()),
    ensures
        trim_end_matches(n + u, u) == n,
        trim_end_matches(n, u) == n,
{
    let t = n + u;
    assert(t.subrange(t.len() - u.len(), t.len() as int) =~= u);
    assert(t.subrange(0, t.len() - u.len()) =~= n);
    if n.len() > 0 {
        assert(is_number_char(n[n.len() - 1]));
    }
    lemma_not_ends_with(n, u, 1);
    assert(trim_end_matches(n, u) == n);
    assert(ends_with(t, u));
    assert(trim_end_matches(t, u) == trim_end_matches(t.subrange(0, t.len() - u.len()), u));
}

/// A number followed by one unit text does not end in any other unit text of
/// the same kind.
proof fn lemma_unit_mismatch(n: Seq<char>, scale: Scale, binary: bool, s2: Scale, b2: bool, rate: bool)
    requires
        scale != s2 || binary != b2,
    ensures
        !ends_with(n + unit_text(scale, binary, rate), unit_text(s2, b2, rate)),
{
    let u = unit_text(scale, binary, rate);
    let v = unit_text(s2, b2, rate);
    let t = n + u;
    let tl: int = if rate { 2 } else { 0 };
    let k: int = if binary == b2 { u.len() as int } else { tl + 2 };
    assert(t[t.len() - k] == u[u.len() - k]);
    lemma_not_ends_with(t, v, k);
}

/// A number followed by a unit text is read as that number in that multiple.
proof fn lemma_unit_read(n: Seq<char>, scale: Scale, binary: bool, rate: bool)
    requires
        forall|i: int| 0 <= i < n.len() ==> is_number_char(#[trigger] n[i]),
    ensures
        quantity_of(n + unit_text(scale, binary, rate), rate) == Some((n, scale)),
{
    let t = n + unit_text(scale, binary, rate);
    let bin = unit_text(scale, true, rate);
    let dec = unit_text(scale, false, rate);
    lemma_trim_unit(n, bin);
    lemma_trim_unit(n, dec);
    if !binary {
        lemma_unit_mismatch(n, scale, binary, scale, true, rate);
        assert(trim_end_matches(t, bin) == t);
    }
    assert(quantity_in(t, scale, rate) == Some((n, scale)));
    if scale != Scale::Mebi {
        lemma_unit_mismatch(n, scale, binary, Scale::Mebi, true, rate);
        lemma_unit_mismatch(n, scale, binary, Scale::Mebi, false, rate);
    }
    if scale == Scale::Gibi {
        lemma_unit_mismatch(n, scale, binary, Scale::Kibi, true, rate);
        lemma_unit_mismatch(n, scale, binary, Scale::Kibi, false, rate);
    }
}

proof fn lemma_rate_words_read(n: Seq<char>)
    requires
        forall|i: int| 0 <= i < n.len() ==> is_number_char(#[trigger] n[i]),
    ensures
        quantity_of(n + seq!['K', 'i', 'B', '/', 's'], true) == Some((n, Scale::Kibi)),
        quantity_of(n + seq!['K', 'B', '/', 's'], true) == Some((n, Scale::Kibi)),
        quantity_of(n + seq!['M', 'i', 'B', '/', 's'], true) == Some((n, Scale::Mebi)),
        quantity_of(n + seq!['M', 'B', '/', 's'], true) == Some((n, Scale::Mebi)),
        quantity_of(n + seq!['G', 'i', 'B', '/', 's'], true) == Some((n, Scale::Gibi)),
        quantity_of(n + seq!['G', 'B', '/', 's'], true) == Some((n, Scale::Gibi)),
{
    lemma_unit_read(n, Scale::Kibi, true, true);
    assert(unit_text(Scale::Kibi, true, true) =~= seq!['K', 'i', 'B', '/', 's']);
    lemma_unit_read(n, Scale::Kibi, false, true);
    assert(unit_text(Scale::Kibi, false, true) =~= seq!['K', 'B', '/', 's']);
    lemma_unit_read(n, Scale::Mebi, true, true);
    assert(unit_text(Scale::Mebi, true, true) =~= seq!['M', 'i', 'B', '/', 's']);
    lemma_unit_read(n, Scale::Mebi, false, true);
    assert(unit_text(Scale::Mebi, false, true) =~= seq!['M', 'B', '/', 's']);
    lemma_unit_read(n, Scale::Gibi, true, true);
    assert(unit_text(Scale::Gibi, true, true) =~= seq!['G', 'i', 'B', '/', 's']);
    lemma_unit_read(n, Scale::Gibi, false, true);
    assert(unit_text(Scale::Gibi, false, true) =~= seq!['G', 'B', '/', 's']);
}

proof fn lemma_size_words_read(n: Seq<char>)
    requires
        forall|i: int| 0 <= i < n.len() ==> is_number_char(#[trigger] n[i]),
    ensures
        quantity_of(n + seq!['K', 'i', 'B'], false) == Some((n, Scale::Kibi)),
        quantity_of(n + seq!['K', 'B'], false) == Some((n, Scale::Kibi)),
        quantity_of(n + seq!['M', 'i', 'B'], false) == Some((n, Scale::Mebi)),
        quantity_of(n + seq!['M', 'B'], false) == Some((n, Scale::Mebi)),
        quantity_of(n + seq!['G', 'i', 'B'], false) == Some((n, Scale::Gibi)),
        quantity_of(n + seq!['G', 'B'], false) == Some((n, Scale::Gibi)),
{
    lemma_unit_read(n, Scale::Kibi, true, false);
    assert(unit_text(Scale::Kibi, true, false) =~= seq!['K', 'i', 'B']);
    lemma_unit_read(n, Scale::Kibi, false, false);
    assert(unit_text(Scale::Kibi, false, false) =~= seq!['K', 'B']);
    lemma_unit_read(n, Scale::Mebi, true, false);
    assert(unit_text(Scale::Mebi, true, false) =~= seq!['M', 'i', 'B']);
    lemma_unit_read(n, Scale::Mebi, false, false);
    assert(unit_text(Scale::Mebi, false, false) =~= seq!['M', 'B']);
    lemma_unit_read(n, Scale::Gibi, true, false);
    assert(unit_text(Scale::Gibi, true, false) =~= seq!['G', 'i', 'B']);
    lemma_unit_read(n, Scale::Gibi, false, false);
    assert(unit_text(Scale::Gibi, false, false) =~= seq!['G', 'B']);
}

/// Every rate word yt-dlp writes, in KiB/s, KB/s, MiB/s, MB/s, GiB/s or GB/s,
/// is read as its number in its own multiple, and so is every size word in
/// KiB, KB, MiB, MB, GiB or GB; a rate written right after ` at ` is the
/// download's rate.
pub proof fn lemma_units_are_read(n: Seq<char>)
    requires
        forall|i: int| 0 <= i < n.len() ==> is_number_char(#[trigger] n[i]),
    ensures
        quantity_of(n + seq!['K', 'i', 'B', '/', 's'], true) == Some((n, Scale::Kibi)),
        quantity_of(n + seq!['K', 'B', '/', 's'], true) == Some((n, Scale::Kibi)),
        quantity_of(n + seq!['M', 'i', 'B', '/', 's'], true) == Some((n, Scale::Mebi)),
        quantity_of(n + seq!['M', 'B', '/', 's'], true) == Some((n, Scale::Mebi)),
        quantity_of(n + seq!['G', 'i', 'B', '/', 's'], true) == Some((n, Scale::Gibi)),
        quantity_of(n + seq!['G', 'B', '/', 's'], true) == Some((n, Scale::Gibi)),
        quantity_of(n + seq!['K', 'i', 'B'], false) == Some((n, Scale::Kibi)),
        quantity_of(n + seq!['K', 'B'], false) == Some((n, Scale::Kibi)),
        quantity_of(n + seq!['M', 'i', 'B'], false) == Some((n, Scale::Mebi)),
        quantity_of(n + seq!['M', 'B'], false) == Some((n, Scale::Mebi)),
        quantity_of(n + seq!['G', 'i', 'B'], false) == Some((n, Scale::Gibi)),
        quantity_of(n + seq!['G', 'B'], false) == Some((n, Scale::Gibi)),
        speed_of(seq![' ', 'a', 't', ' '] + n + seq!['K', 'i', 'B', '/', 's']) == Some((n, Scale::Kibi)),
        speed_of(seq![' ', 'a', 't', ' '] + n + seq!['M', 'i', 'B', '/', 's']) == Some((n, Scale::Mebi)),
        speed_of(seq![' ', 'a', 't', ' '] + n + seq!['G', 'i', 'B', '/', 's']) == Some((n, Scale::Gibi)),
{
    lemma_rate_words_read(n);
    lemma_size_words_read(n);
    lemma_speed_word(n, seq!['K', 'i', 'B', '/', 's']);
    lemma_speed_word(n, seq!['M', 'i', 'B', '/', 's']);
    lemma_speed_word(n, seq!['G', 'i', 'B', '/', 's']);
}

/// The rate read from ` at ` followed by a number and a unit is that word.
proof fn lemma_speed_word(n: Seq<char>, u: Seq<char>)
    requires
        forall|i: int| 0 <= i < n.len() ==> is_number_char(#[trigger] n[i]),
        forall|i: int| 0 <= i < u.len() ==> !is_ws(#[trigger] u[i]),
    ensures
        speed_of(seq![' ', 'a', 't', ' '] + n + u) == quantity_of(n + u, true),
{
    let rest = seq![' ', 'a', 't', ' '] + n + u;
    assert(occurs_at(rest, at_sep(), 0)) by {
        assert(rest.subrange(0, 4) =~= at_sep());
    }
    assert(find(rest, at_sep()) == Some(0int));
    let w = n + u;
    assert(rest.subrange(4, rest.len() as int) =~= w);
    assert forall|i: int| 0 <= i < w.len() implies !is_ws(#[trigger] w[i]) by {
        if i < n.len() {
            assert(is_number_char(n[i]));
        } else {
            assert(w[i] == u[i - n.len()]);
        }
    }
    lemma_no_ws_word(w);
}

fn unit_text_exec(scale: Scale, binary: bool, rate: bool) -> (r: Vec<char>)
    ensures
        r@ == unit_text(scale, binary, rate),
{
    let mut r: Vec<char> = Vec::new();
    match scale {
        Scale::Kibi => r.push('K'),
        Scale::Mebi => r.push('M'),
        Scale::Gibi => r.push('G'),
    }
    if binary {
        r.push('i');
    }
    r.push('B');
    if rate {
        r.push('/');
        r.push('s');
    }
    proof {
        let head = match scale {
            Scale::Kibi => seq!['K'],
            Scale::Mebi => seq!['M'],
            Scale::Gibi => seq!['G'],
        };
        let mid = if binary { seq!['i', 'B'] } else { seq!['B'] };
        let tail = if rate { seq!['/', 's'] } else { Seq::<char>::empty() };
        assert(r@ =~= head + mid + tail);
    }
    r
}

fn quantity_in_exec(tok: &Vec<char>, scale: Scale, rate: bool) -> (r: Option<Quantity>)
    ensures
        quantity_model(r) == quantity_in(tok@, scale, rate),
{
    let bin = unit_text_exec(scale, true, rate);
    let dec = unit_text_exec(scale, false, rate);
    if ends_with_exec(tok, &bin) || ends_with_exec(tok, &dec) {
        let once = trim_end_matches_of(tok, &bin);
        let num = trim_end_matches_of(&once, &dec);
        Some(Quantity { number: string_of(&num), scale })
    } else {
        None
    }
}

fn quantity_of_exec(tok: &Vec<char>, rate: bool) -> (r: Option<Quantity>)
    ensures
        quantity_model(r) == quantity_of(tok@, rate),
{
    let m = quantity_in_exec(tok, Scale::Mebi, rate);
    if m.is_some() {
        return m;
    }
    let k = quantity_in_exec(tok, Scale::Kibi, rate);
    if k.is_some() {
        return k;
    }
    quantity_in_exec(tok, Scale::Gibi, rate)
}

/// The characters of `rest` from index `from` on.
fn tail_from(rest: &Vec<char>, from: usize) -> (r: Vec<char>)
    requires
        from <= rest@.len(),
    ensures
        r@ == rest@.subrange(from as int, rest@.len() as int),
{
    slice(rest, from, rest.len())
}

fn speed_of_exec(rest: &Vec<char>) -> (r: Option<Quantity>)
    ensures
        quantity_model(r) == speed_of(rest@),
{
    let sep: Vec<char> = vec![' ', 'a', 't', ' '];
    assert(sep@ == at_sep());
    match find_in(rest, &sep) {
        Some(i) => {
            let n = rest.len();
            assert(i + 4 <= n);
            let after = tail_from(rest, i + 4);
            let tok = first_word_of(&after);
            quantity_of_exec(&tok, true)
        },
        None => None,
    }
}

fn total_of_exec(rest: &Vec<char>) -> (r: Option<Quantity>)
    ensures
        quantity_model(r) == total_of(rest@),
{
    let sep: Vec<char> = vec![' ', 'o', 'f', ' '];
    assert(sep@ == of_sep());
    match find_in(rest, &sep) {
        Some(i) => {
            let n = rest.len();
            assert(i + 4 <= n);
            let after = tail_from(rest, i + 4);
            let unmarked = trim_start_char_of(&after, '~');
            let trimmed = trim_of(&unmarked);
            let tok = first_word_of(&trimmed);
            quantity_of_exec(&tok, false)
        },
        None => None,
    }
}

fn time_field_exec(s: &Vec<char>) -> (r: u64)
    ensures
        r as nat == time_field(s@),
{
    match parse_u64(s) {
        Some(v) => v,
        None => 0,
    }
}

fn eta_value_exec(tok: &Vec<char>) -> (r: Option<u64>)
    ensures
        r == eta_value(tok@),
{
    let parts = split_on(tok, ':');
    if parts.len() == 2 {
        let m = time_field_exec(&parts[0]);
        let s = time_field_exec(&parts[1]);
        let total: u128 = (m as u128) * 60 + (s as u128);
        Some((total % 0x1_0000_0000_0000_0000u128) as u64)
    } else if parts.len() == 3 {
        let h = time_field_exec(&parts[0]);
        let m = time_field_exec(&parts[1]);
        let s = time_field_exec(&parts[2]);
        let total: u128 = (h as u128) * 3600 + (m as u128) * 60 + (s as u128);
        Some((total % 0x1_0000_0000_0000_0000u128) as u64)
    } else {
        None
    }
}

fn eta_of_exec(rest: &Vec<char>) -> (r: Option<u64>)
    ensures
        r == eta_of(rest@),
{
    let tag: Vec<char> = vec!['E', 'T', 'A', ' '];
    assert(tag@ == eta_tag());
    match find_in(rest, &tag) {
        Some(i) => {
            let n = rest.len();
            assert(i + 4 <= n);
            let after = tail_from(rest, i + 4);
            let tok = first_word_of(&after);
            eta_value_exec(&tok)
        },
        None => None,
    }
}

/// Reads a line that yt-dlp printed with `--progress --newline`, such as
/// `[download]  45.2% of 12.34MiB at 2.45MiB/s ETA 00:03`. `None` unless the
/// line starts with `[download]` and holds a `%`.
pub fn scan_progress_line(line: &str) -> (r: Option<ProgressScan>)
    ensures
        match r {
            Some(scan) => scan_line(line@) == Some(scan@),
            None => scan_line(line@) is None,
        },
{
    let chars = chars_of(line);
    let tag: Vec<char> = vec!['[', 'd', 'o', 'w', 'n', 'l', 'o', 'a', 'd', ']'];
    assert(tag@ == download_tag());
    if !starts_with_exec(&chars, &tag) {
        return None;
    }
    let after = tail_from(&chars, 10);
    let rest = trim_of(&after);
    let pct: Vec<char> = vec!['%'];
    assert(pct@ == seq!['%']);
    match find_in(&rest, &pct) {
        Some(p) => {
            let before = slice(&rest, 0, p);
            let percent = trim_of(&before);
            let scan = ProgressScan {
                percent_text: string_of(&percent),
                speed: speed_of_exec(&rest),
                eta_secs: eta_of_exec(&rest),
                total: total_of_exec(&rest),
            };
            assert(scan@ == scan_line(line@).unwrap());
            Some(scan)
        },
        None => None,
    }
}

/// What one line of yt-dlp's standard output tells the panel.
pub enum OutputLine {
    /// A post-processing step (merging, audio extraction, fix-ups, ffmpeg) runs.
    PostProcessing,
    /// The item `current` of a playlist of `total` items starts.
    PlaylistItem { current: u32, total: u32 },
    /// A file is about to be written; `title` is the title it is saved under.
    Destination { title: String },
    /// A progress report.
    Progress(ProgressScan),
    /// Nothing the panel shows.
    Other,
}

/// The mathematical content of an [`OutputLine`].
pub enum LineModel {
    PostProcessing,
    PlaylistItem(u32, u32),
    Destination(Seq<char>),
    Progress(ScanModel),
    Other,
}

impl View for OutputLine {
    type V = LineModel;

    open spec fn view(&self) -> LineModel {
        match self {
            OutputLine::PostProcessing => LineModel::PostProcessing,
            OutputLine::PlaylistItem { current, total } => LineModel::PlaylistItem(*current, *total),
            OutputLine::Destination { title } => LineModel::Destination(title@),
            OutputLine::Progress(scan) => LineModel::Progress(scan@),
            OutputLine::Other => LineModel::Other,
        }
    }
}

/// `parse::<u32>()` of `s`, or 1 where it fails.
pub open spec fn count_or_one(s: Seq<char>) -> u32 {
    match parse_unsigned(s, u32::MAX as nat) {
        Some(v) => v as u32,
        None => 1,
    }
}

/// The line names a post-processing step.
pub open spec fn is_post_processing(line: Seq<char>) -> bool {
    contains(line, "[Merger]"@) || contains(line, "[ExtractAudio]"@) || contains(line, "[Fixup]"@)
        || contains(line, "[ffmpeg]"@)
}

/// The line announces a playlist entry.
pub open spec fn is_playlist_announcement(line: Seq<char>) -> bool {
    contains(line, "[download] Downloading item"@) || contains(line, "[download] Downloading video"@)
}

/// The numbers of `... item <current> of <total> ...`: the text between the
/// first `item ` and the next ` of `, trimmed, and the first word after that
/// ` of `; each read as `u32`, 1 where that fails. `None` where either marker
/// is missing.
pub open spec fn playlist_item(line: Seq<char>) -> Option<(u32, u32)> {
    match find(line, "item "@) {
        Some(k) => {
            let after = line.subrange(k + "item "@.len(), line.len() as int);
            match find(after, " of "@) {
                Some(o) => Some(
                    (
                        count_or_one(trim(after.subrange(0, o))),
                        count_or_one(
                            first_word(after.subrange(o + " of "@.len(), after.len() as int)),
                        ),
                    ),
                ),
                None => None,
            }
        },
        None => None,
    }
}

/// The name of the file at the end of a path: what follows its last `/`.
pub open spec fn file_name_of_path(path: Seq<char>) -> Seq<char> {
    match last_index_of(path, '/') {
        Some(i) => path.subrange(i + 1, path.len() as int),
        None => path,
    }
}

/// A file name without its last extension.
pub open spec fn without_extension(name: Seq<char>) -> Seq<char> {
    match last_index_of(name, '.') {
        Some(i) => name.subrange(0, i),
        None => name,
    }
}

/// yt-dlp's tag of one format of a merged download: `f` and digits.
pub open spec fn is_format_tag(s: Seq<char>) -> bool {
    s.len() >= 2 && s[0] == 'f' && all_digits(s.drop_first())
}

/// The title a file name was saved under: the name without its extension,
/// and without the format tag (`.f137`) that parts of a merged download carry.
pub open spec fn saved_title(name: Seq<char>) -> Seq<char> {
    let t = without_extension(name);
    match last_index_of(t, '.') {
        Some(i) => if is_format_tag(t.subrange(i + 1, t.len() as int)) {
            t.subrange(0, i)
        } else {
            t
        },
        None => t,
    }
}

/// The marker of the line that names the file being written.
pub open spec fn destination_tag() -> Seq<char> {
    "[download] Destination: "@
}

/// The title of the file that a `[download] Destination: <path>` line names.
pub open spec fn destination_title(line: Seq<char>) -> Option<Seq<char>> {
    if starts_with(line, destination_tag()) {
        Some(saved_title(file_name_of_path(line.subrange(destination_tag().len() as int, line.len() as int))))
    } else {
        None
    }
}

/// What a line of yt-dlp's output tells the panel: a post-processing marker
/// first, then a playlist announcement, then the file being written, then a
/// progress report.
pub open spec fn classify(line: Seq<char>) -> LineModel {
    if is_post_processing(line) {
        LineModel::PostProcessing
    } else if is_playlist_announcement(line) {
        match playlist_item(line) {
            Some((c, t)) => LineModel::PlaylistItem(c, t),
            None => LineModel::Other,
        }
    } else if destination_title(line) is Some {
        LineModel::Destination(destination_title(line).unwrap())
    } else {
        match scan_line(line) {
            Some(m) => LineModel::Progress(m),
            None => LineModel::Other,
        }
    }
}

fn contains_exec(line: &Vec<char>, pat: &str) -> (b: bool)
    ensures
        b == contains(line@, pat@),
{
    let p = chars_of(pat);
    find_in(line, &p).is_some()
}

fn count_or_one_exec(s: &Vec<char>) -> (r: u32)
    ensures
        r == count_or_one(s@),
{
    match parse_u32(s) {
        Some(v) => v,
        None => 1,
    }
}

fn playlist_item_exec(line: &Vec<char>) -> (r: Option<(u32, u32)>)
    ensures
        r == playlist_item(line@),
{
    let item = chars_of("item ");
    let of = chars_of(" of ");
    proof {
        reveal_strlit("item ");
        reveal_strlit(" of ");
    }
    match find_in(line, &item) {
        Some(k) => {
            let n = line.len();
            assert(k + 5 <= n);
            let after = tail_from(line, k + 5);
            match find_in(&after, &of) {
                Some(o) => {
                    let m = after.len();
                    assert(o + 4 <= m);
                    let head = slice(&after, 0, o);
                    let cur_text = trim_of(&head);
                    let rest = tail_from(&after, o + 4);
                    let tot_text = first_word_of(&rest);
                    Some((count_or_one_exec(&cur_text), count_or_one_exec(&tot_text)))
                },
                None => None,
            }
        },
        None => None,
    }
}

fn saved_title_exec(name: &Vec<char>) -> (r: Vec<char>)
    ensures
        r@ == saved_title(name@),
{
    let t = match rfind_char(name, '.') {
        Some(i) => slice(name, 0, i),
        None => slice(name, 0, name.len()),
    };
    assert(name@.subrange(0, name@.len() as int) =~= name@);
    match rfind_char(&t, '.') {
        Some(i) => {
            let tag = tail_from(&t, i + 1);
            let is_tag = tag.len() >= 2 && tag[0] == 'f' && {
                let digits = tail_from(&tag, 1);
                assert(digits@ =~= tag@.drop_first());
                all_digits_exec(&digits)
            };
            if is_tag {
                slice(&t, 0, i)
            } else {
                t
            }
        },
        None => t,
    }
}

/// The title of the file that a `[download] Destination: <path>` line names.
pub fn destination_title_of(line: &Vec<char>) -> (r: Option<String>)
    ensures
        match r {
            Some(t) => destination_title(line@) == Some(t@),
            None => destination_title(line@) is None,
        },
{
    let tag = chars_of("[download] Destination: ");
    if !starts_with_exec(line, &tag) {
        return None;
    }
    let path = tail_from(line, tag.len());
    let name = match rfind_char(&path, '/') {
        Some(i) => tail_from(&path, i + 1),
        None => slice(&path, 0, path.len()),
    };
    assert(path@.subrange(0, path@.len() as int) =~= path@);
    let title = saved_title_exec(&name);
    Some(string_of(&title))
}

/// Classifies one line of yt-dlp's standard output.
pub fn classify_output_line(line: &str) -> (r: OutputLine)
    ensures
        r@ == classify(line@),
{
    let chars = chars_of(line);
    if contains_exec(&chars, "[Merger]") || contains_exec(&chars, "[ExtractAudio]")
        || contains_exec(&chars, "[Fixup]") || contains_exec(&chars, "[ffmpeg]") {
        OutputLine::PostProcessing
    } else if contains_exec(&chars, "[download] Downloading item") || contains_exec(
        &chars,
        "[download] Downloading video",
    ) {
        match playlist_item_exec(&chars) {
            Some((c, t)) => OutputLine::PlaylistItem { current: c, total: t },
            None => OutputLine::Other,
        }
    } else if let Some(title) = destination_title_of(&chars) {
        OutputLine::Destination { title }
    } else {
        match scan_progress_line(line) {
            Some(scan) => OutputLine::Progress(scan),
            None => OutputLine::Other,
        }
    }
}

/// A time written `m:s` is `m * 60 + s` seconds, and one written `h:m:s` is
/// `h * 3600 + m * 60 + s` seconds, each field read as `u64` (0 where that
/// fails) and the sum reduced modulo 2^64.
pub proof fn lemma_eta_fields(h: Seq<char>, m: Seq<char>, s: Seq<char>)
    requires
        forall|i: int| 0 <= i < h.len() ==> h[i] != ':',
        forall|i: int| 0 <= i < m.len() ==> m[i] != ':',
        forall|i: int| 0 <= i < s.len() ==> s[i] != ':',
    ensures
        eta_value(m + seq![':'] + s) == Some(
            ((time_field(m) * 60 + time_field(s)) % 0x1_0000_0000_0000_0000) as u64,
        ),
        eta_value(h + seq![':'] + m + seq![':'] + s) == Some(
            ((time_field(h) * 3600 + time_field(m) * 60 + time_field(s)) % 0x1_0000_0000_0000_0000) as u64,
        ),
{
    lemma_split_char_plain(m, ':');
    lemma_split_char_push_separator(m, ':');
    assert(m + seq![':'] =~= m.push(':'));
    lemma_split_char_append_plain(m.push(':'), s, ':');
    assert(split_char(m + seq![':'] + s, ':') =~= seq![m, s]);

    lemma_split_char_plain(h, ':');
    lemma_split_char_push_separator(h, ':');
    assert(h + seq![':'] =~= h.push(':'));
    lemma_split_char_append_plain(h.push(':'), m, ':');
    let hm = h + seq![':'] + m;
    assert(split_char(hm, ':') =~= seq![h, m]);
    lemma_split_char_push_separator(hm, ':');
    assert(hm + seq![':'] =~= hm.push(':'));
    lemma_split_char_append_plain(hm.push(':'), s, ':');
    assert(split_char(h + seq![':'] + m + seq![':'] + s, ':') =~= seq![h, m, s]);
}

/// A letter that yt-dlp writes in a unit: `K`, `M`, `G`, `i`, `B`, `/`, `s`.
pub open spec fn is_unit_char(c: char) -> bool {
    c == 'K' || c == 'M' || c == 'G' || c == 'i' || c == 'B' || c == '/' || c == 's'
}

/// No character of `s` is `c`.
spec fn lacks(s: Seq<char>, c: char) -> bool {
    forall|i: int| 0 <= i < s.len() ==> #[trigger] s[i] != c
}

proof fn lemma_lacks_concat(a: Seq<char>, b: Seq<char>, c: char)
    requires
        lacks(a, c),
        lacks(b, c),
    ensures
        lacks(a + b, c),
{
    assert forall|i: int| 0 <= i < (a + b).len() implies #[trigger] (a + b)[i] != c by {
        if i < a.len() {
            assert((a + b)[i] == a[i]);
        } else {
            assert((a + b)[i] == b[i - a.len()]);
        }
    }
}

/// The pieces of a full progress line: numbers written with digits and
/// points, units written with unit letters, and a time whose seconds are not
/// empty.
pub open spec fn line_pieces(
    p: Seq<char>,
    n1: Seq<char>,
    su: Seq<char>,
    n2: Seq<char>,
    ru: Seq<char>,
    m: Seq<char>,
    sec: Seq<char>,
) -> bool {
    &&& forall|i: int| 0 <= i < p.len() ==> is_number_char(#[trigger] p[i])
    &&& forall|i: int| 0 <= i < n1.len() ==> is_number_char(#[trigger] n1[i])
    &&& forall|i: int| 0 <= i < n2.len() ==> is_number_char(#[trigger] n2[i])
    &&& forall|i: int| 0 <= i < m.len() ==> is_number_char(#[trigger] m[i])
    &&& forall|i: int| 0 <= i < sec.len() ==> is_number_char(#[trigger] sec[i])
    &&& forall|i: int| 0 <= i < su.len() ==> is_unit_char(#[trigger] su[i])
    &&& forall|i: int| 0 <= i < ru.len() ==> is_unit_char(#[trigger] ru[i])
    &&& su.len() > 0
    &&& ru.len() > 0
    &&& sec.len() > 0
}

spec fn pct_sep() -> Seq<char> {
    seq!['%', ' ', 'o', 'f', ' ']
}

spec fn eta_sep() -> Seq<char> {
    seq![' ', 'E', 'T', 'A', ' ']
}

/// The text after `[download] ` in a full progress line.
spec fn line_rest(
    p: Seq<char>,
    n1: Seq<char>,
    su: Seq<char>,
    n2: Seq<char>,
    ru: Seq<char>,
    m: Seq<char>,
    sec: Seq<char>,
) -> Seq<char> {
    p + pct_sep() + (n1 + su) + at_sep() + (n2 + ru) + eta_sep() + (m + seq![':'] + sec)
}

proof fn lemma_piece_chars(
    p: Seq<char>,
    n1: Seq<char>,
    su: Seq<char>,
    n2: Seq<char>,
    ru: Seq<char>,
    m: Seq<char>,
    sec: Seq<char>,
)
    requires
        line_pieces(p, n1, su, n2, ru, m, sec),
    ensures
        forall|i: int| 0 <= i < (n1 + su).len() ==> !is_ws(#[trigger] (n1 + su)[i]) && (n1 + su)[i] != 'E'
            && (n1 + su)[i] != 'a' && (n1 + su)[i] != '~',
        forall|i: int| 0 <= i < (n2 + ru).len() ==> !is_ws(#[trigger] (n2 + ru)[i]) && (n2 + ru)[i] != 'E',
        forall|i: int| 0 <= i < (m + seq![':'] + sec).len() ==> !is_ws(#[trigger] (m + seq![':'] + sec)[i]),
        forall|i: int| 0 <= i < p.len() ==> !is_ws(#[trigger] p[i]) && p[i] != 'E' && p[i] != ' ' && p[i]
            != '%',
        (m + seq![':'] + sec).last() == sec.last(),
        !is_ws(sec.last()),
{
    let c = n1 + su;
    let e = n2 + ru;
    let g = m + seq![':'] + sec;
    assert forall|i: int| 0 <= i < c.len() implies !is_ws(#[trigger] c[i]) && c[i] != 'E' && c[i]
        != 'a' && c[i] != '~' by {
        if i < n1.len() {
            assert(c[i] == n1[i] && is_number_char(n1[i]));
        } else {
            assert(c[i] == su[i - n1.len()] && is_unit_char(su[i - n1.len()]));
        }
    }
    assert forall|i: int| 0 <= i < e.len() implies !is_ws(#[trigger] e[i]) && e[i] != 'E' by {
        if i < n2.len() {
            assert(e[i] == n2[i] && is_number_char(n2[i]));
        } else {
            assert(e[i] == ru[i - n2.len()] && is_unit_char(ru[i - n2.len()]));
        }
    }
    assert forall|i: int| 0 <= i < g.len() implies !is_ws(#[trigger] g[i]) by {
        if i < m.len() {
            assert(g[i] == m[i] && is_number_char(m[i]));
        } else if i == m.len() {
            assert(g[i] == ':');
        } else {
            assert(g[i] == sec[i - m.len() - 1] && is_number_char(sec[i - m.len() - 1]));
        }
    }
    assert forall|i: int| 0 <= i < p.len() implies !is_ws(#[trigger] p[i]) && p[i] != 'E' && p[i] != ' '
        && p[i] != '%' by {
        assert(is_number_char(p[i]));
    }
    assert(g.last() == sec.last());
    assert(is_number_char(sec[sec.len() - 1]));
}

/// The tag is recognised and the rest of the line is kept whole.
proof fn lemma_line_rest(
    p: Seq<char>,
    n1: Seq<char>,
    su: Seq<char>,
    n2: Seq<char>,
    ru: Seq<char>,
    m: Seq<char>,
    sec: Seq<char>,
)
    requires
        line_pieces(p, n1, su, n2, ru, m, sec),
    ensures
        ({
            let line = seq!['[', 'd', 'o', 'w', 'n', 'l', 'o', 'a', 'd', ']', ' '] + p + seq![
                '%',
                ' ',
                'o',
                'f',
                ' ',
            ] + n1 + su + seq![' ', 'a', 't', ' '] + n2 + ru + seq![' ', 'E', 'T', 'A', ' '] + m
                + seq![':'] + sec;
            &&& starts_with(line, download_tag())
            &&& trim(line.subrange(10, line.len() as int)) == line_rest(p, n1, su, n2, ru, m, sec)
        }),
{
    lemma_piece_chars(p, n1, su, n2, ru, m, sec);
    let rest = line_rest(p, n1, su, n2, ru, m, sec);
    let line = seq!['[', 'd', 'o', 'w', 'n', 'l', 'o', 'a', 'd', ']', ' '] + p + seq!['%', ' ', 'o', 'f', ' ']
        + n1 + su + seq![' ', 'a', 't', ' '] + n2 + ru + seq![' ', 'E', 'T', 'A', ' '] + m + seq![':'] + sec;
    assert(line =~= download_tag() + (seq![' '] + rest));
    assert(line.subrange(0, 10) =~= download_tag());
    assert(line.subrange(10, line.len() as int) =~= seq![' '] + rest);
    assert(rest[0] == (if p.len() > 0 { p[0] } else { '%' }));
    assert(rest.last() == sec.last());
    crate::text::lemma_trim_surrounded(seq![' '], rest, Seq::<char>::empty());
    assert(seq![' '] + rest + Seq::<char>::empty() =~= seq![' '] + rest);
}

proof fn lemma_line_share(
    p: Seq<char>,
    n1: Seq<char>,
    su: Seq<char>,
    n2: Seq<char>,
    ru: Seq<char>,
    m: Seq<char>,
    sec: Seq<char>,
)
    requires
        line_pieces(p, n1, su, n2, ru, m, sec),
    ensures
        find(line_rest(p, n1, su, n2, ru, m, sec), seq!['%']) == Some(p.len() as int),
        trim(line_rest(p, n1, su, n2, ru, m, sec).subrange(0, p.len() as int)) == p,
{
    lemma_piece_chars(p, n1, su, n2, ru, m, sec);
    let rest = line_rest(p, n1, su, n2, ru, m, sec);
    let pc = seq!['%'];
    let tail = seq![' ', 'o', 'f', ' '] + (n1 + su) + at_sep() + (n2 + ru) + eta_sep() + (m + seq![':']
        + sec);
    assert(rest =~= p + (pc + tail));
    assert(occurs_at(rest, pc, p.len() as int)) by {
        assert(rest.subrange(p.len() as int, p.len() as int + 1) =~= pc);
    }
    assert forall|i: int| 0 <= i < p.len() implies !#[trigger] occurs_at(rest, pc, i) by {
        if occurs_at(rest, pc, i) {
            crate::text::lemma_occurs_chars(rest, pc, i);
            assert(pc[0] == '%');
            assert(rest[i] == p[i]);
        }
    }
    crate::text::lemma_find_first(rest, pc, p.len() as int);
    assert(rest.subrange(0, p.len() as int) =~= p);
    if p.len() > 0 {
        crate::text::lemma_trim_surrounded(Seq::<char>::empty(), p, Seq::<char>::empty());
        assert(Seq::<char>::empty() + p + Seq::<char>::empty() =~= p);
    }
}

proof fn lemma_line_total(
    p: Seq<char>,
    n1: Seq<char>,
    su: Seq<char>,
    n2: Seq<char>,
    ru: Seq<char>,
    m: Seq<char>,
    sec: Seq<char>,
)
    requires
        line_pieces(p, n1, su, n2, ru, m, sec),
    ensures
        total_of(line_rest(p, n1, su, n2, ru, m, sec)) == quantity_of(n1 + su, false),
{
    lemma_piece_chars(p, n1, su, n2, ru, m, sec);
    let rest = line_rest(p, n1, su, n2, ru, m, sec);
    let c = n1 + su;
    let g = m + seq![':'] + sec;
    let k_of: int = p.len() as int + 1;
    let x = c + at_sep() + (n2 + ru) + eta_sep() + g;
    assert(rest =~= (p + seq!['%']) + (of_sep() + x));
    assert(occurs_at(rest, of_sep(), k_of)) by {
        assert(rest.subrange(k_of, k_of + 4) =~= of_sep());
    }
    assert forall|i: int| 0 <= i < k_of implies !#[trigger] occurs_at(rest, of_sep(), i) by {
        if occurs_at(rest, of_sep(), i) {
            crate::text::lemma_occurs_chars(rest, of_sep(), i);
            assert(of_sep()[0] == ' ');
            assert(rest[i] == (p + seq!['%'])[i]);
        }
    }
    crate::text::lemma_find_first(rest, of_sep(), k_of);
    assert(rest.subrange(k_of + 4, rest.len() as int) =~= x);
    assert(x[0] == c[0]);
    assert(trim_start_char(x, '~') == x);
    assert(x.last() == g.last());
    crate::text::lemma_trim_surrounded(Seq::<char>::empty(), x, Seq::<char>::empty());
    assert(Seq::<char>::empty() + x + Seq::<char>::empty() =~= x);
    assert(x =~= c + (at_sep() + (n2 + ru) + eta_sep() + g));
    crate::text::lemma_first_word_prefix(c, at_sep() + (n2 + ru) + eta_sep() + g);
}

proof fn lemma_line_rate(
    p: Seq<char>,
    n1: Seq<char>,
    su: Seq<char>,
    n2: Seq<char>,
    ru: Seq<char>,
    m: Seq<char>,
    sec: Seq<char>,
)
    requires
        line_pieces(p, n1, su, n2, ru, m, sec),
    ensures
        speed_of(line_rest(p, n1, su, n2, ru, m, sec)) == quantity_of(n2 + ru, true),
{
    lemma_piece_chars(p, n1, su, n2, ru, m, sec);
    let rest = line_rest(p, n1, su, n2, ru, m, sec);
    let c = n1 + su;
    let e = n2 + ru;
    let g = m + seq![':'] + sec;
    let pct = pct_sep();
    let a = p + pct + c;
    let k_at: int = a.len() as int;
    let y = e + eta_sep() + g;
    assert(rest =~= a + (at_sep() + y));
    assert(occurs_at(rest, at_sep(), k_at)) by {
        assert(rest.subrange(k_at, k_at + 4) =~= at_sep());
    }
    assert forall|i: int| 0 <= i < k_at implies !#[trigger] occurs_at(rest, at_sep(), i) by {
        if occurs_at(rest, at_sep(), i) {
            crate::text::lemma_occurs_chars(rest, at_sep(), i);
            assert(at_sep()[0] == ' ' && at_sep()[1] == 'a');
            assert(rest[i] == ' ' && rest[i + 1] == 'a');
            if i < p.len() {
                assert(rest[i] == p[i]);
            } else if i < p.len() + 5 {
                assert(rest[i] == pct[i - p.len()]);
                if i + 1 < p.len() + 5 {
                    assert(rest[i + 1] == pct[i + 1 - p.len()]);
                } else {
                    assert(rest[i + 1] == c[0]);
                }
            } else {
                assert(rest[i] == c[i - p.len() - 5]);
            }
        }
    }
    crate::text::lemma_find_first(rest, at_sep(), k_at);
    assert(rest.subrange(k_at + 4, rest.len() as int) =~= y);
    assert(y =~= e + (eta_sep() + g));
    crate::text::lemma_first_word_prefix(e, eta_sep() + g);
}

proof fn lemma_line_eta(
    p: Seq<char>,
    n1: Seq<char>,
    su: Seq<char>,
    n2: Seq<char>,
    ru: Seq<char>,
    m: Seq<char>,
    sec: Seq<char>,
)
    requires
        line_pieces(p, n1, su, n2, ru, m, sec),
    ensures
        eta_of(line_rest(p, n1, su, n2, ru, m, sec)) == Some(
            ((time_field(m) * 60 + time_field(sec)) % 0x1_0000_0000_0000_0000) as u64,
        ),
{
    lemma_piece_chars(p, n1, su, n2, ru, m, sec);
    let rest = line_rest(p, n1, su, n2, ru, m, sec);
    let c = n1 + su;
    let e = n2 + ru;
    let g = m + seq![':'] + sec;
    let b = p + pct_sep() + c + at_sep() + e + seq![' '];
    let k_eta: int = b.len() as int;
    assert(rest =~= b + (eta_tag() + g));
    assert(occurs_at(rest, eta_tag(), k_eta)) by {
        assert(rest.subrange(k_eta, k_eta + 4) =~= eta_tag());
    }
    assert(lacks(p, 'E'));
    assert(lacks(pct_sep(), 'E'));
    assert(lacks(c, 'E'));
    assert(lacks(at_sep(), 'E'));
    assert(lacks(e, 'E'));
    assert(lacks(seq![' '], 'E'));
    lemma_lacks_concat(p, pct_sep(), 'E');
    lemma_lacks_concat(p + pct_sep(), c, 'E');
    lemma_lacks_concat(p + pct_sep() + c, at_sep(), 'E');
    lemma_lacks_concat(p + pct_sep() + c + at_sep(), e, 'E');
    lemma_lacks_concat(p + pct_sep() + c + at_sep() + e, seq![' '], 'E');
    assert forall|i: int| 0 <= i < k_eta implies !#[trigger] occurs_at(rest, eta_tag(), i) by {
        if occurs_at(rest, eta_tag(), i) {
            crate::text::lemma_occurs_chars(rest, eta_tag(), i);
            assert(eta_tag()[0] == 'E');
            assert(rest[i] == b[i]);
        }
    }
    crate::text::lemma_find_first(rest, eta_tag(), k_eta);
    assert(rest.subrange(k_eta + 4, rest.len() as int) =~= g);
    lemma_no_ws_word(g);
    assert forall|i: int| 0 <= i < m.len() implies #[trigger] m[i] != ':' by {
        assert(is_number_char(m[i]));
    }
    assert forall|i: int| 0 <= i < sec.len() implies #[trigger] sec[i] != ':' by {
        assert(is_number_char(sec[i]));
    }
    lemma_eta_fields(m, m, sec);
}

/// A full progress line, `[download] P% of N1U1 at N2U2 ETA M:S`, gives each
/// field from its own place: the share is the text before `%`, the total is
/// the word after ` of `, the rate the word after ` at `, and the time left
/// the `m:s` after `ETA `, as `m * 60 + s` seconds.
pub proof fn lemma_progress_line_fields(
    p: Seq<char>,
    n1: Seq<char>,
    su: Seq<char>,
    n2: Seq<char>,
    ru: Seq<char>,
    m: Seq<char>,
    sec: Seq<char>,
)
    requires
        line_pieces(p, n1, su, n2, ru, m, sec),
    ensures
        scan_line(
            seq!['[', 'd', 'o', 'w', 'n', 'l', 'o', 'a', 'd', ']', ' '] + p + seq!['%', ' ', 'o', 'f', ' ']
                + n1 + su + seq![' ', 'a', 't', ' '] + n2 + ru + seq![' ', 'E', 'T', 'A', ' '] + m
                + seq![':'] + sec,
        ) == Some(
            ScanModel {
                percent_text: p,
                speed: quantity_of(n2 + ru, true),
                eta_secs: Some(((time_field(m) * 60 + time_field(sec)) % 0x1_0000_0000_0000_0000) as u64),
                total: quantity_of(n1 + su, false),
            },
        ),
{
    lemma_line_rest(p, n1, su, n2, ru, m, sec);
    lemma_line_share(p, n1, su, n2, ru, m, sec);
    lemma_line_total(p, n1, su, n2, ru, m, sec);
    lemma_line_rate(p, n1, su, n2, ru, m, sec);
    lemma_line_eta(p, n1, su, n2, ru, m, sec);
}

} // verus!
