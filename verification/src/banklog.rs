//! Reading and writing the log lines for trades with the bank, so that a run
//! of trades by one player shows as one line with the amounts added up.

use vstd::prelude::*;
use vstd::string::*;
use crate::rules::{ResourceType, resource_name};
use crate::text::{decimal, push_char, push_decimal};
use crate::lists::{keep, lemma_keep_step};
use crate::client::{GameState, name_of};
use crate::payout::log_of;
use crate::narration::{bank_trade_line, bank_trade_text};
use crate::rules::PlayerId;

verus! {

/// Unicode white space, as `char::is_whitespace` counts it.
pub open spec fn space_char(c: char) -> bool {
    let u = c as u32;
    ||| 0x09 <= u <= 0x0d
    ||| u == 0x20
    ||| u == 0x85
    ||| u == 0xa0
    ||| u == 0x1680
    ||| 0x2000 <= u <= 0x200a
    ||| u == 0x2028
    ||| u == 0x2029
    ||| u == 0x202f
    ||| u == 0x205f
    ||| u == 0x3000
}

/// `s` without its leading white space.
pub open spec fn trim_front(s: Seq<char>) -> Seq<char>
    decreases s.len(),
{
    if s.len() > 0 && space_char(s[0]) {
        trim_front(s.drop_first())
    } else {
        s
    }
}

/// `s` without its trailing white space.
pub open spec fn trim_back(s: Seq<char>) -> Seq<char>
    decreases s.len(),
{
    if s.len() > 0 && space_char(s.last()) {
        trim_back(s.drop_last())
    } else {
        s
    }
}

/// `s` without white space at either end.
pub open spec fn trim(s: Seq<char>) -> Seq<char> {
    trim_back(trim_front(s))
}

/// A character with ASCII upper case turned to lower case.
pub open spec fn lower_char(c: char) -> char {
    if 'A' <= c <= 'Z' {
        ((c as u32) + 32) as char
    } else {
        c
    }
}

/// `s` with ASCII upper case turned to lower case.
pub open spec fn ascii_lower(s: Seq<char>) -> Seq<char> {
    s.map_values(|c: char| lower_char(c))
}

/// The resource a lower-case word names, by its usual name or a synonym.
pub open spec fn word_resource(w: Seq<char>) -> Option<ResourceType> {
    if w == seq!['w', 'o', 'o', 'd'] || w == seq!['l', 'u', 'm', 'b', 'e', 'r'] {
        Some(ResourceType::Wood)
    } else if w == seq!['b', 'r', 'i', 'c', 'k'] {
        Some(ResourceType::Brick)
    } else if w == seq!['s', 'h', 'e', 'e', 'p'] || w == seq!['w', 'o', 'o', 'l'] {
        Some(ResourceType::Sheep)
    } else if w == seq!['w', 'h', 'e', 'a', 't'] || w == seq!['g', 'r', 'a', 'i', 'n'] {
        Some(ResourceType::Wheat)
    } else if w == seq!['o', 'r', 'e'] {
        Some(ResourceType::Ore)
    } else {
        None
    }
}

/// The resource a name in a trade line stands for: the name trimmed and
/// read without regard to ASCII case.
pub open spec fn resource_key(s: Seq<char>) -> Option<ResourceType> {
    word_resource(ascii_lower(trim(s)))
}

/// The characters of a string, one by one.
pub fn chars_of(s: &str) -> (v: Vec<char>)
    ensures
        v@ == s@,
{
    let n = s.unicode_len();
    let mut v: Vec<char> = Vec::new();
    let mut i: usize = 0;
    while i < n
        invariant
            n == s@.len(),
            i <= n,
            v@ == s@.take(i as int),
        decreases n - i,
    {
        let c = s.get_char(i);
        v.push(c);
        i = i + 1;
        proof {
            assert(v@ =~= s@.take(i as int));
        }
    }
    proof {
        assert(s@.take(n as int) =~= s@);
    }
    v
}

/// Whether a character is white space.
pub fn is_space(c: char) -> (b: bool)
    ensures
        b == space_char(c),
{
    let u = c as u32;
    (0x09 <= u && u <= 0x0d) || u == 0x20 || u == 0x85 || u == 0xa0 || u == 0x1680 || (0x2000 <= u
        && u <= 0x200a) || u == 0x2028 || u == 0x2029 || u == 0x202f || u == 0x205f || u == 0x3000
}

/// The lower-case form of an ASCII letter; every other character as it is.
pub fn to_lower(c: char) -> (d: char)
    ensures
        d == lower_char(c),
{
    if 'A' <= c && c <= 'Z' {
        let b = (c as u8) + 32;
        b as char
    } else {
        c
    }
}

/// The bounds of `v[lo..hi]` with white space cut from both ends.
pub fn trim_range(v: &Vec<char>, lo: usize, hi: usize) -> (r: (usize, usize))
    requires
        lo <= hi <= v@.len(),
    ensures
        lo <= r.0 <= r.1 <= hi,
        v@.subrange(r.0 as int, r.1 as int) == trim(v@.subrange(lo as int, hi as int)),
{
    let mut a = lo;
    while a < hi && is_space(v[a])
        invariant
            lo <= a <= hi <= v@.len(),
            trim_front(v@.subrange(lo as int, hi as int)) == trim_front(v@.subrange(a as int, hi as int)),
        decreases hi - a,
    {
        proof {
            assert(v@.subrange(a as int, hi as int).drop_first() =~= v@.subrange(a + 1, hi as int));
        }
        a = a + 1;
    }
    let mut b = hi;
    while b > a && is_space(v[b - 1])
        invariant
            lo <= a <= b <= hi <= v@.len(),
            trim_front(v@.subrange(lo as int, hi as int)) == v@.subrange(a as int, hi as int),
            trim_back(v@.subrange(a as int, hi as int)) == trim_back(v@.subrange(a as int, b as int)),
        decreases b - a,
    {
        proof {
            assert(v@.subrange(a as int, b as int).drop_last() =~= v@.subrange(a as int, b - 1));
        }
        b = b - 1;
    }
    (a, b)
}

/// Whether `v[lo..hi]`, read in lower case, is the word `w`.
pub fn lower_eq(v: &Vec<char>, lo: usize, hi: usize, w: &[char]) -> (b: bool)
    requires
        lo <= hi <= v@.len(),
    ensures
        b == (ascii_lower(v@.subrange(lo as int, hi as int)) == w@),
{
    let ghost s = ascii_lower(v@.subrange(lo as int, hi as int));
    if hi - lo != w.len() {
        proof {
            assert(s.len() != w@.len());
        }
        return false;
    }
    let mut i: usize = 0;
    while i < w.len()
        invariant
            lo <= hi <= v@.len(),
            hi - lo == w@.len(),
            s == ascii_lower(v@.subrange(lo as int, hi as int)),
            i <= w@.len(),
            forall|k: int| 0 <= k < i ==> s[k] == w@[k],
        decreases w@.len() - i,
    {
        let c = to_lower(v[lo + i]);
        if c != w[i] {
            proof {
                assert(s[i as int] == c);
            }
            return false;
        }
        i = i + 1;
    }
    proof {
        assert(s =~= w@);
    }
    true
}

/// The resource `v[lo..hi]` names, if any.
pub fn range_key(v: &Vec<char>, lo: usize, hi: usize) -> (r: Option<ResourceType>)
    requires
        lo <= hi <= v@.len(),
    ensures
        r == resource_key(v@.subrange(lo as int, hi as int)),
{
    let (a, b) = trim_range(v, lo, hi);
    if lower_eq(v, a, b, &['w', 'o', 'o', 'd']) || lower_eq(v, a, b, &['l', 'u', 'm', 'b', 'e', 'r']) {
        Some(ResourceType::Wood)
    } else if lower_eq(v, a, b, &['b', 'r', 'i', 'c', 'k']) {
        Some(ResourceType::Brick)
    } else if lower_eq(v, a, b, &['s', 'h', 'e', 'e', 'p']) || lower_eq(v, a, b, &['w', 'o', 'o', 'l']) {
        Some(ResourceType::Sheep)
    } else if lower_eq(v, a, b, &['w', 'h', 'e', 'a', 't']) || lower_eq(v, a, b, &['g', 'r', 'a', 'i', 'n']) {
        Some(ResourceType::Wheat)
    } else if lower_eq(v, a, b, &['o', 'r', 'e']) {
        Some(ResourceType::Ore)
    } else {
        None
    }
}

/// The resource a name in a trade line stands for, if it names one.
pub fn bank_trade_resource_key(name: &str) -> (r: Option<ResourceType>)
    ensures
        r == resource_key(name@),
{
    let v = chars_of(name);
    proof {
        assert(v@.subrange(0, v@.len() as int) =~= v@);
    }
    range_key(&v, 0, v.len())
}

/// Whether a character is an ASCII decimal digit.
pub open spec fn decimal_digit(c: char) -> bool {
    '0' <= c <= '9'
}

/// The value of a run of decimal digits, most significant first.
pub open spec fn digits_value(d: Seq<char>) -> nat
    decreases d.len(),
{
    if d.len() == 0 {
        0
    } else {
        digits_value(d.drop_last()) * 10 + ((d.last() as u32) - ('0' as u32)) as nat
    }
}

/// The digits of a count, without the plus sign it may start with.
pub open spec fn unsigned_digits(w: Seq<char>) -> Seq<char> {
    if w.len() > 0 && w[0] == '+' {
        w.drop_first()
    } else {
        w
    }
}

/// The number a word reads as, when it is an optional plus sign and at
/// least one decimal digit whose value is at most `max`.
pub open spec fn number_of(w: Seq<char>, max: nat) -> Option<nat> {
    let d = unsigned_digits(w);
    if d.len() > 0 && (forall|i: int| 0 <= i < d.len() ==> decimal_digit(#[trigger] d[i])) && digits_value(d)
        <= max {
        Some(digits_value(d))
    } else {
        None
    }
}

/// The count a word gives as an unsigned 32-bit number; a word that does
/// not read as one counts 0.
pub open spec fn count_of(w: Seq<char>) -> nat {
    match number_of(w, u32::MAX as nat) {
        Some(n) => n,
        None => 0,
    }
}

/// The number `v[lo..hi]` reads as, if it reads as one no larger than `max`.
pub fn parse_number(v: &Vec<char>, lo: usize, hi: usize, max: u64) -> (n: Option<u64>)
    requires
        lo <= hi <= v@.len(),
        max <= u32::MAX || max == usize::MAX,
    ensures
        match n {
            Some(k) => number_of(v@.subrange(lo as int, hi as int), max as nat) == Some(k as nat),
            None => number_of(v@.subrange(lo as int, hi as int), max as nat) is None,
        },
{
    let ghost w = v@.subrange(lo as int, hi as int);
    let start = if lo < hi && v[lo] == '+' {
        lo + 1
    } else {
        lo
    };
    let ghost d = unsigned_digits(w);
    proof {
        assert(d =~= v@.subrange(start as int, hi as int));
    }
    if start == hi {
        return None;
    }
    let mut value: u64 = 0;
    let mut over = false;
    let mut i = start;
    while i < hi
        invariant
            lo <= start <= i <= hi <= v@.len(),
            max <= u32::MAX || max == usize::MAX,
            d == v@.subrange(start as int, hi as int),
            w == v@.subrange(lo as int, hi as int),
            d == unsigned_digits(w),
            forall|k: int| start <= k < i ==> decimal_digit(#[trigger] v@[k]),
            !over ==> value == digits_value(v@.subrange(start as int, i as int)) && value <= max,
            over ==> digits_value(v@.subrange(start as int, i as int)) > max,
        decreases hi - i,
    {
        let c = v[i];
        if !('0' <= c && c <= '9') {
            proof {
                assert(!decimal_digit(d[i - start]));
            }
            return None;
        }
        let ghost before = v@.subrange(start as int, i as int);
        let ghost after = v@.subrange(start as int, i + 1);
        proof {
            assert(after.drop_last() =~= before);
        }
        let dv = ((c as u32) - ('0' as u32)) as u64;
        if !over {
            if dv > max || value > (max - dv) / 10 {
                over = true;
                assert(digits_value(after) > max) by (nonlinear_arith)
                    requires
                        digits_value(after) == value * 10 + dv,
                        dv > max || value > (max - dv) / 10,
                ;
            } else {
                assert(value * 10 + dv <= max) by (nonlinear_arith)
                    requires
                        value <= (max - dv) / 10,
                        dv <= max,
                ;
                value = value * 10 + dv;
            }
        } else {
            assert(digits_value(after) >= digits_value(before)) by (nonlinear_arith)
                requires
                    digits_value(after) == digits_value(before) * 10 + ((c as u32) - ('0' as u32)) as nat,
            ;
        }
        i = i + 1;
    }
    proof {
        assert(v@.subrange(start as int, hi as int) =~= d);
        assert forall|k: int| 0 <= k < d.len() implies decimal_digit(#[trigger] d[k]) by {
            assert(d[k] == v@[start + k]);
        }
    }
    if over {
        None
    } else {
        Some(value)
    }
}

/// The count `v[lo..hi]` reads as.
pub fn parse_count(v: &Vec<char>, lo: usize, hi: usize) -> (n: u32)
    requires
        lo <= hi <= v@.len(),
    ensures
        n == count_of(v@.subrange(lo as int, hi as int)),
{
    match parse_number(v, lo, hi, 0xffff_ffff) {
        Some(k) => k as u32,
        None => 0,
    }
}

/// Where the first white space at or after `i` stands in `t`, or its length.
pub open spec fn first_space(t: Seq<char>, i: int) -> int
    decreases t.len() - i,
{
    if i < 0 || i >= t.len() {
        t.len() as int
    } else if space_char(t[i]) {
        i
    } else {
        first_space(t, i + 1)
    }
}

/// What one chunk of a trade line, such as `2 wood`, amounts to: the count
/// its first word gives and the resource the rest names. A blank chunk, a
/// count of zero or one that does not read, and a name that is no resource
/// all amount to nothing.
pub open spec fn chunk_entry(c: Seq<char>) -> Option<(ResourceType, nat)> {
    let t = trim(c);
    let k = first_space(t, 0);
    if t.len() == 0 || count_of(t.take(k)) == 0 {
        None
    } else {
        match resource_key(t.skip(k)) {
            Some(r) => Some((r, count_of(t.take(k)))),
            None => None,
        }
    }
}

/// Reads one chunk `v[lo..hi]` of a trade line.
pub fn chunk_parse(v: &Vec<char>, lo: usize, hi: usize) -> (e: Option<(ResourceType, u32)>)
    requires
        lo <= hi <= v@.len(),
    ensures
        match e {
            Some((r, n)) => chunk_entry(v@.subrange(lo as int, hi as int)) == Some((r, n as nat)),
            None => chunk_entry(v@.subrange(lo as int, hi as int)) is None,
        },
{
    let (a, b) = trim_range(v, lo, hi);
    let ghost t = v@.subrange(a as int, b as int);
    if a == b {
        return None;
    }
    let mut k = a;
    while k < b && !is_space(v[k])
        invariant
            lo <= a <= k <= b <= hi <= v@.len(),
            t == v@.subrange(a as int, b as int),
            first_space(t, 0) == first_space(t, k - a),
        decreases b - k,
    {
        proof {
            assert(t[k - a] == v@[k as int]);
        }
        k = k + 1;
    }
    proof {
        if k < b {
            assert(t[k - a] == v@[k as int]);
        }
        assert(t.take(k - a) =~= v@.subrange(a as int, k as int));
        assert(t.skip(k - a) =~= v@.subrange(k as int, b as int));
    }
    let n = parse_count(v, a, k);
    if n == 0 {
        return None;
    }
    match range_key(v, k, b) {
        Some(r) => Some((r, n)),
        None => None,
    }
}

/// The pieces of `s` between the occurrences of `sep`, scanning on from
/// position `i` with the current piece begun at `start`. Occurrences are
/// taken left to right and do not overlap.
pub open spec fn split_scan(s: Seq<char>, sep: Seq<char>, start: int, i: int) -> Seq<Seq<char>>
    decreases s.len() - i,
{
    if sep.len() == 0 || i < 0 || i + sep.len() > s.len() {
        seq![s.subrange(start, s.len() as int)]
    } else if s.subrange(i, i + sep.len()) == sep {
        seq![s.subrange(start, i)] + split_scan(s, sep, i + sep.len(), i + sep.len())
    } else {
        split_scan(s, sep, start, i + 1)
    }
}

/// The pieces of `s` between the occurrences of `sep`.
pub open spec fn split(s: Seq<char>, sep: Seq<char>) -> Seq<Seq<char>> {
    split_scan(s, sep, 0, 0)
}

/// Where the first occurrence of `sep` at or after `i` begins in `s`.
pub open spec fn find_from(s: Seq<char>, sep: Seq<char>, i: int) -> Option<int>
    decreases s.len() - i,
{
    if i < 0 || i + sep.len() > s.len() {
        None
    } else if sep.len() == 0 || s.subrange(i, i + sep.len()) == sep {
        Some(i)
    } else {
        find_from(s, sep, i + 1)
    }
}

/// The text each range stands for in `v`.
pub open spec fn range_texts(v: Seq<char>, rs: Seq<(usize, usize)>) -> Seq<Seq<char>> {
    rs.map_values(|r: (usize, usize)| v.subrange(r.0 as int, r.1 as int))
}

/// Whether `sep` occurs in `v` at position `i`.
pub fn occurs_at(v: &Vec<char>, i: usize, sep: &[char]) -> (b: bool)
    requires
        i + sep@.len() <= v@.len(),
    ensures
        b == (v@.subrange(i as int, i + sep@.len()) == sep@),
{
    let mut k: usize = 0;
    while k < sep.len()
        invariant
            i + sep@.len() <= v@.len(),
            v@.len() == v.len(),
            k <= sep@.len(),
            forall|m: int| 0 <= m < k ==> v@[i + m] == sep@[m],
        decreases sep@.len() - k,
    {
        if v[i + k] != sep[k] {
            proof {
                assert(v@.subrange(i as int, i + sep@.len())[k as int] != sep@[k as int]);
            }
            return false;
        }
        k = k + 1;
    }
    proof {
        assert(v@.subrange(i as int, i + sep@.len()) =~= sep@);
    }
    true
}

/// The ranges of the pieces of `v[lo..hi]` between the occurrences of `sep`.
pub fn split_ranges(v: &Vec<char>, lo: usize, hi: usize, sep: &[char]) -> (rs: Vec<(usize, usize)>)
    requires
        lo <= hi <= v@.len(),
        sep@.len() > 0,
    ensures
        range_texts(v@, rs@) == split(v@.subrange(lo as int, hi as int), sep@),
        forall|k: int| 0 <= k < rs@.len() ==> lo <= (#[trigger] rs@[k]).0 <= rs@[k].1 <= hi,
{
    let ghost s = v@.subrange(lo as int, hi as int);
    let n = sep.len();
    let mut rs: Vec<(usize, usize)> = Vec::new();
    let mut start = lo;
    let mut i = lo;
    while i < hi && n <= hi - i
        invariant
            lo <= start <= i <= hi <= v@.len(),
            n == sep@.len(),
            n > 0,
            s == v@.subrange(lo as int, hi as int),
            range_texts(v@, rs@) + split_scan(s, sep@, start - lo, i - lo) == split(s, sep@),
            forall|k: int| 0 <= k < rs@.len() ==> lo <= (#[trigger] rs@[k]).0 <= rs@[k].1 <= hi,
        decreases hi - i,
    {
        proof {
            assert(s.subrange(i - lo, i - lo + n) =~= v@.subrange(i as int, i + n));
        }
        if occurs_at(v, i, sep) {
            let ghost before = range_texts(v@, rs@);
            rs.push((start, i));
            proof {
                assert(s.subrange(start - lo, i - lo) =~= v@.subrange(start as int, i as int));
                assert(range_texts(v@, rs@) =~= before.push(v@.subrange(start as int, i as int)));
                assert(range_texts(v@, rs@) + split_scan(s, sep@, i + n - lo, i + n - lo) =~= before
                    + split_scan(s, sep@, start - lo, i - lo));
            }
            i = i + n;
            start = i;
        } else {
            i = i + 1;
        }
    }
    let ghost before = range_texts(v@, rs@);
    rs.push((start, hi));
    proof {
        assert(s.subrange(start - lo, s.len() as int) =~= v@.subrange(start as int, hi as int));
        assert(range_texts(v@, rs@) =~= before.push(v@.subrange(start as int, hi as int)));
        assert(range_texts(v@, rs@) =~= before + split_scan(s, sep@, start - lo, i - lo));
    }
    rs
}

/// Where `sep` first occurs in `v[lo..hi]`, counted from `lo`.
pub fn find_range(v: &Vec<char>, lo: usize, hi: usize, sep: &[char]) -> (r: Option<usize>)
    requires
        lo <= hi <= v@.len(),
    ensures
        match r {
            Some(i) => find_from(v@.subrange(lo as int, hi as int), sep@, 0) == Some(i - lo) && lo <= i
                && i + sep@.len() <= hi,
            None => find_from(v@.subrange(lo as int, hi as int), sep@, 0) is None,
        },
{
    let ghost s = v@.subrange(lo as int, hi as int);
    let n = sep.len();
    let mut i = lo;
    while i < hi && n <= hi - i
        invariant
            lo <= i <= hi <= v@.len(),
            n == sep@.len(),
            s == v@.subrange(lo as int, hi as int),
            find_from(s, sep@, 0) == find_from(s, sep@, i - lo),
        decreases hi - i,
    {
        proof {
            assert(s.subrange(i - lo, i - lo + n) =~= v@.subrange(i as int, i + n));
        }
        if occurs_at(v, i, sep) {
            return Some(i);
        }
        proof {
            if n == 0 {
                assert(v@.subrange(i as int, i as int) =~= sep@);
            }
        }
        i = i + 1;
    }
    if n == 0 {
        return Some(i);
    }
    None
}

/// The words that part the pieces of a trade line.
pub open spec fn and_sep() -> Seq<char> {
    seq![' ', 'a', 'n', 'd', ' ']
}

pub open spec fn comma_sep() -> Seq<char> {
    seq![',', ' ']
}

pub open spec fn for_sep() -> Seq<char> {
    seq![' ', 'f', 'o', 'r', ' ']
}

/// The sum of `f` over the entries of `s`.
pub open spec fn sum_over<A>(s: Seq<A>, f: spec_fn(A) -> nat) -> nat
    decreases s.len(),
{
    if s.len() == 0 {
        0
    } else {
        sum_over(s.drop_last(), f) + f(s.last())
    }
}

/// A sum over a longer prefix adds the next entry.
pub proof fn lemma_sum_step<A>(s: Seq<A>, f: spec_fn(A) -> nat, j: int)
    requires
        0 <= j < s.len(),
    ensures
        sum_over(s.take(j + 1), f) == sum_over(s.take(j), f) + f(s[j]),
{
    assert(s.take(j + 1).drop_last() =~= s.take(j));
}

/// A sum over a prefix is no more than the whole sum.
pub proof fn lemma_sum_prefix<A>(s: Seq<A>, f: spec_fn(A) -> nat, j: int)
    requires
        0 <= j <= s.len(),
    ensures
        sum_over(s.take(j), f) <= sum_over(s, f),
    decreases s.len() - j,
{
    if j < s.len() {
        lemma_sum_step(s, f, j);
        lemma_sum_prefix(s, f, j + 1);
    } else {
        assert(s.take(j) =~= s);
    }
}

/// How much of resource `r` one chunk counts.
pub open spec fn chunk_weight(r: ResourceType) -> spec_fn(Seq<char>) -> nat {
    |c: Seq<char>|
        match chunk_entry(c) {
            Some((q, n)) => if q == r {
                n
            } else {
                0
            },
            None => 0,
        }
}

/// How much of resource `r` one piece between the `and`s counts.
pub open spec fn part_weight(r: ResourceType) -> spec_fn(Seq<char>) -> nat {
    |p: Seq<char>| sum_over(split(p, comma_sep()), chunk_weight(r))
}

/// How much of resource `r` one side of a trade line counts in all: its
/// pieces are parted by ` and `, then by `, `.
pub open spec fn side_total(side: Seq<char>, r: ResourceType) -> nat {
    sum_over(split(side, and_sep()), part_weight(r))
}

/// The entry for `r` in a list of totals: there only when its total is not zero.
pub open spec fn entry_of(r: ResourceType, n: nat) -> Seq<(ResourceType, u32)> {
    if n > 0 {
        seq![(r, n as u32)]
    } else {
        Seq::empty()
    }
}

/// The non-zero totals `t` gives, in card order.
pub open spec fn listed(t: spec_fn(ResourceType) -> nat) -> Seq<(ResourceType, u32)> {
    entry_of(ResourceType::Wood, t(ResourceType::Wood)) + entry_of(ResourceType::Brick, t(ResourceType::Brick))
        + entry_of(ResourceType::Sheep, t(ResourceType::Sheep)) + entry_of(
        ResourceType::Wheat,
        t(ResourceType::Wheat),
    ) + entry_of(ResourceType::Ore, t(ResourceType::Ore))
}

/// The five card kinds by slot.
pub open spec fn slot_resource(k: int) -> ResourceType {
    crate::rules::card_order()[k]
}

/// Totals kept in five slots, in card order, as a list of the non-zero ones.
pub fn listed_from(acc: &Vec<u32>) -> (l: Vec<(ResourceType, u32)>)
    requires
        acc@.len() == 5,
    ensures
        l@ == listed(|r: ResourceType| match crate::rules::card_slot(r) {
            Some(k) => acc@[k] as nat,
            None => 0,
        }),
{
    let ghost t = |r: ResourceType| match crate::rules::card_slot(r) {
        Some(k) => acc@[k] as nat,
        None => 0nat,
    };
    let mut l: Vec<(ResourceType, u32)> = Vec::new();
    if acc[0] > 0 {
        l.push((ResourceType::Wood, acc[0]));
    }
    proof {
        assert(l@ =~= entry_of(ResourceType::Wood, t(ResourceType::Wood)));
    }
    let ghost l1 = l@;
    if acc[1] > 0 {
        l.push((ResourceType::Brick, acc[1]));
    }
    proof {
        assert(l@ =~= l1 + entry_of(ResourceType::Brick, t(ResourceType::Brick)));
    }
    let ghost l2 = l@;
    if acc[2] > 0 {
        l.push((ResourceType::Sheep, acc[2]));
    }
    proof {
        assert(l@ =~= l2 + entry_of(ResourceType::Sheep, t(ResourceType::Sheep)));
    }
    let ghost l3 = l@;
    if acc[3] > 0 {
        l.push((ResourceType::Wheat, acc[3]));
    }
    proof {
        assert(l@ =~= l3 + entry_of(ResourceType::Wheat, t(ResourceType::Wheat)));
    }
    let ghost l4 = l@;
    if acc[4] > 0 {
        l.push((ResourceType::Ore, acc[4]));
    }
    proof {
        assert(l@ =~= l4 + entry_of(ResourceType::Ore, t(ResourceType::Ore)));
    }
    l
}

/// No chunk names the desert.
pub proof fn lemma_no_desert(c: Seq<char>)
    ensures
        chunk_entry(c) matches Some((r, _)) ==> r != ResourceType::Desert,
{
}

/// Adds up, slot by slot in card order, what one side `v[lo..hi]` of a trade
/// line counts of each resource.
pub fn side_totals(v: &Vec<char>, lo: usize, hi: usize) -> (acc: Vec<u32>)
    requires
        lo <= hi <= v@.len(),
        forall|k: int| 0 <= k < 5 ==> side_total(v@.subrange(lo as int, hi as int), #[trigger] slot_resource(k))
            <= u32::MAX,
    ensures
        acc@.len() == 5,
        forall|k: int|
            0 <= k < 5 ==> acc@[k] == side_total(v@.subrange(lo as int, hi as int), #[trigger] slot_resource(k)),
{
    let ghost s = v@.subrange(lo as int, hi as int);
    let parts = split_ranges(v, lo, hi, &[' ', 'a', 'n', 'd', ' ']);
    let ghost ps = range_texts(v@, parts@);
    let mut acc: Vec<u32> = vec![0, 0, 0, 0, 0];
    let mut i: usize = 0;
    while i < parts.len()
        invariant
            lo <= hi <= v@.len(),
            s == v@.subrange(lo as int, hi as int),
            ps == range_texts(v@, parts@),
            ps == split(s, and_sep()),
            forall|k: int| 0 <= k < parts@.len() ==> lo <= (#[trigger] parts@[k]).0 <= parts@[k].1 <= hi,
            forall|k: int| 0 <= k < 5 ==> side_total(s, #[trigger] slot_resource(k)) <= u32::MAX,
            i <= parts@.len(),
            acc@.len() == 5,
            forall|k: int| 0 <= k < 5 ==> acc@[k] == sum_over(ps.take(i as int), part_weight(#[trigger] slot_resource(k))),
        decreases parts@.len() - i,
    {
        let (a, b) = parts[i];
        let chunks = split_ranges(v, a, b, &[',', ' ']);
        let ghost cs = range_texts(v@, chunks@);
        proof {
            assert(ps[i as int] == v@.subrange(a as int, b as int));
        }
        let mut j: usize = 0;
        while j < chunks.len()
            invariant
                lo <= a <= b <= hi <= v@.len(),
                s == v@.subrange(lo as int, hi as int),
                ps == split(s, and_sep()),
                i < ps.len(),
                ps[i as int] == v@.subrange(a as int, b as int),
                cs == range_texts(v@, chunks@),
                cs == split(ps[i as int], comma_sep()),
                forall|k: int| 0 <= k < chunks@.len() ==> a <= (#[trigger] chunks@[k]).0 <= chunks@[k].1 <= b,
                forall|k: int| 0 <= k < 5 ==> side_total(s, #[trigger] slot_resource(k)) <= u32::MAX,
                j <= chunks@.len(),
                acc@.len() == 5,
                forall|k: int|
                    0 <= k < 5 ==> acc@[k] == sum_over(ps.take(i as int), part_weight(#[trigger] slot_resource(k)))
                        + sum_over(cs.take(j as int), chunk_weight(slot_resource(k))),
            decreases chunks@.len() - j,
        {
            let (c0, c1) = chunks[j];
            let e = chunk_parse(v, c0, c1);
            proof {
                assert(cs[j as int] == v@.subrange(c0 as int, c1 as int));
                assert forall|k: int| 0 <= k < 5 implies sum_over(ps.take(i as int), part_weight(#[trigger] slot_resource(k)))
                    + sum_over(cs.take(j + 1), chunk_weight(slot_resource(k))) <= u32::MAX by {
                    let r = slot_resource(k);
                    lemma_sum_step(ps, part_weight(r), i as int);
                    lemma_sum_prefix(ps, part_weight(r), i + 1);
                    lemma_sum_prefix(cs, chunk_weight(r), j + 1);
                }
                assert forall|k: int| 0 <= k < 5 implies sum_over(cs.take(j + 1), chunk_weight(#[trigger] slot_resource(k)))
                    == sum_over(cs.take(j as int), chunk_weight(slot_resource(k))) + chunk_weight(slot_resource(k))(cs[j as int]) by {
                    lemma_sum_step(cs, chunk_weight(slot_resource(k)), j as int);
                }
                lemma_no_desert(cs[j as int]);
            }
            match e {
                Some((r, n)) => {
                    let k = r.card_index().unwrap();
                    let old_acc = acc[k];
                    proof {
                        assert(slot_resource(k as int) == r);
                        assert(chunk_weight(r)(cs[j as int]) == n);
                    }
                    acc.set(k, old_acc + n);
                },
                None => {},
            }
            j = j + 1;
        }
        proof {
            assert(cs.take(chunks@.len() as int) =~= cs);
            assert forall|k: int| 0 <= k < 5 implies acc@[k] == sum_over(ps.take(i + 1), part_weight(#[trigger] slot_resource(k))) by {
                lemma_sum_step(ps, part_weight(slot_resource(k)), i as int);
            }
        }
        i = i + 1;
    }
    proof {
        assert(ps.take(parts@.len() as int) =~= ps);
    }
    acc
}

/// What one side of a trade line counts of each resource, as a list of the
/// non-zero totals in card order.
pub fn bank_trade_resource_totals(side: &str) -> (l: Vec<(ResourceType, u32)>)
    requires
        forall|r: ResourceType| #[trigger] side_total(side@, r) <= u32::MAX,
    ensures
        l@ == listed(|r: ResourceType| side_total(side@, r)),
{
    let v = chars_of(side);
    proof {
        assert(v@.subrange(0, v@.len() as int) =~= v@);
    }
    let acc = side_totals(&v, 0, v.len());
    let l = listed_from(&acc);
    proof {
        let t1 = |r: ResourceType| match crate::rules::card_slot(r) {
            Some(k) => acc@[k] as nat,
            None => 0,
        };
        let t2 = |r: ResourceType| side_total(side@, r);
        assert(slot_resource(0) == ResourceType::Wood);
        assert(slot_resource(1) == ResourceType::Brick);
        assert(slot_resource(2) == ResourceType::Sheep);
        assert(slot_resource(3) == ResourceType::Wheat);
        assert(slot_resource(4) == ResourceType::Ore);
        assert(listed(t1) =~= listed(t2));
    }
    l
}

/// Parts joined with `sep` between each two.
pub open spec fn join_with(parts: Seq<Seq<char>>, sep: Seq<char>) -> Seq<char>
    decreases parts.len(),
{
    if parts.len() == 0 {
        Seq::empty()
    } else if parts.len() == 1 {
        parts[0]
    } else {
        join_with(parts.drop_last(), sep) + sep + parts.last()
    }
}

/// How a summary line writes one amount: `3 wood`.
pub open spec fn amount_text(e: (ResourceType, u32)) -> Seq<char> {
    decimal(e.1 as nat) + seq![' '] + ascii_lower(resource_name(e.0))
}

/// The amounts that are not zero.
pub open spec fn shown(items: Seq<(ResourceType, u32)>) -> Seq<(ResourceType, u32)> {
    keep(items, |e: (ResourceType, u32)| e.1 > 0)
}

/// One side of a summary line: the amounts that are not zero, joined by ` and `.
pub open spec fn amounts_text(items: Seq<(ResourceType, u32)>) -> Seq<char> {
    join_with(shown(items).map_values(|e: (ResourceType, u32)| amount_text(e)), and_sep())
}

/// A summary of one player's trades with the bank.
pub open spec fn summary_line(name: Seq<char>, give: Seq<(ResourceType, u32)>, receive: Seq<(ResourceType, u32)>) -> Seq<char> {
    name + " traded "@ + amounts_text(give) + " for "@ + amounts_text(receive)
}

/// Appends `t` with ASCII upper case turned to lower case.
pub fn push_lower(s: &mut String, t: &str)
    ensures
        final(s)@ == old(s)@ + ascii_lower(t@),
{
    let v = chars_of(t);
    let mut i: usize = 0;
    while i < v.len()
        invariant
            v@ == t@,
            i <= v@.len(),
            s@ == old(s)@ + ascii_lower(t@.take(i as int)),
        decreases v@.len() - i,
    {
        let c = to_lower(v[i]);
        push_char(s, c);
        proof {
            assert(ascii_lower(t@.take(i + 1)) =~= ascii_lower(t@.take(i as int)).push(c));
        }
        i = i + 1;
    }
    proof {
        assert(t@.take(v@.len() as int) =~= t@);
    }
}

/// Appends one side of a summary line.
pub fn push_amounts(s: &mut String, items: &Vec<(ResourceType, u32)>)
    ensures
        final(s)@ == old(s)@ + amounts_text(items@),
{
    let ghost f = |e: (ResourceType, u32)| amount_text(e);
    let ghost kp = |e: (ResourceType, u32)| e.1 > 0;
    let mut i: usize = 0;
    let mut any = false;
    while i < items.len()
        invariant
            i <= items@.len(),
            f == (|e: (ResourceType, u32)| amount_text(e)),
            kp == (|e: (ResourceType, u32)| e.1 > 0),
            any == (keep(items@.take(i as int), kp).len() > 0),
            s@ == old(s)@ + join_with(keep(items@.take(i as int), kp).map_values(f), and_sep()),
        decreases items@.len() - i,
    {
        let (r, n) = items[i];
        let ghost before = keep(items@.take(i as int), kp);
        proof {
            lemma_keep_step(items@, i as int, kp);
        }
        if n > 0 {
            let ghost old_s = s@;
            if any {
                s.append(" and ");
                proof {
                    reveal_strlit(" and ");
                }
            }
            push_decimal(s, n as u64);
            push_char(s, ' ');
            push_lower(s, r.label());
            any = true;
            proof {
                let after = keep(items@.take(i + 1), kp);
                assert(after == before.push((r, n)));
                let parts = after.map_values(f);
                assert(parts.drop_last() =~= before.map_values(f));
                assert(parts.last() == amount_text((r, n)));
                if before.len() == 0 {
                    assert(parts.len() == 1);
                }
                assert(s@ =~= old(s)@ + join_with(parts, and_sep()));
            }
        }
        i = i + 1;
    }
    proof {
        assert(items@.take(items@.len() as int) =~= items@);
    }
}

/// The line that sums up a player's trades with the bank: `Ann traded 2 wood
/// and 1 ore for 1 brick`. Amounts of zero are left out.
pub fn bank_trade_summary(player_name: &str, give: Vec<(ResourceType, u32)>, receive: Vec<(ResourceType, u32)>) -> (s: String)
    ensures
        s@ == summary_line(player_name@, give@, receive@),
{
    let mut s = String::from_str(player_name);
    s.append(" traded ");
    push_amounts(&mut s, &give);
    s.append(" for ");
    push_amounts(&mut s, &receive);
    s
}

/// How a player's trade line begins.
pub open spec fn trade_prefix(name: Seq<char>) -> Seq<char> {
    name + " traded "@
}

/// The two sides of `line` if it is a trade line of the player called
/// `name`: what follows the opening, split at the first ` for `.
pub open spec fn parse_line(line: Seq<char>, name: Seq<char>) -> Option<(Seq<char>, Seq<char>)> {
    let p = trade_prefix(name);
    if p.len() <= line.len() && line.take(p.len() as int) == p {
        let rest = line.skip(p.len() as int);
        match find_from(rest, for_sep(), 0) {
            Some(i) => Some((rest.take(i), rest.skip(i + for_sep().len()))),
            None => None,
        }
    } else {
        None
    }
}

/// What a trade line says was given of `r`; nothing if it does not read.
pub open spec fn given(line: Seq<char>, name: Seq<char>, r: ResourceType) -> nat {
    match parse_line(line, name) {
        Some((g, _)) => side_total(g, r),
        None => 0,
    }
}

/// What a trade line says was received of `r`; nothing if it does not read.
pub open spec fn got(line: Seq<char>, name: Seq<char>, r: ResourceType) -> nat {
    match parse_line(line, name) {
        Some((_, g)) => side_total(g, r),
        None => 0,
    }
}

/// The two lines' amounts added up stay within 32 bits.
pub open spec fn merge_fits(existing: Seq<char>, incoming: Seq<char>, name: Seq<char>) -> bool {
    forall|r: ResourceType|
        #![trigger given(existing, name, r)]
        given(existing, name, r) + given(incoming, name, r) <= u32::MAX && got(existing, name, r) + got(
            incoming,
            name,
            r,
        ) <= u32::MAX
}

/// The one line that stands for two trade lines of the same player.
pub open spec fn merged_line(existing: Seq<char>, incoming: Seq<char>, name: Seq<char>) -> Seq<char> {
    summary_line(
        name,
        listed(|r: ResourceType| given(existing, name, r) + given(incoming, name, r)),
        listed(|r: ResourceType| got(existing, name, r) + got(incoming, name, r)),
    )
}

/// The ranges of the two sides of the trade line `v` of the player whose
/// name is `name`, if it is one.
pub fn parse_ranges(v: &Vec<char>, name: &str) -> (r: Option<((usize, usize), (usize, usize))>)
    ensures
        match r {
            Some((g, h)) => g.0 <= g.1 <= v@.len() && h.0 <= h.1 <= v@.len() && parse_line(v@, name@) == Some(
                (v@.subrange(g.0 as int, g.1 as int), v@.subrange(h.0 as int, h.1 as int)),
            ),
            None => parse_line(v@, name@) is None,
        },
{
    let mut pat = chars_of(name);
    let mut tail = chars_of(" traded ");
    pat.append(&mut tail);
    let ghost p = trade_prefix(name@);
    proof {
        assert(pat@ =~= p);
    }
    if pat.len() > v.len() {
        return None;
    }
    if !occurs_at(v, 0, pat.as_slice()) {
        proof {
            assert(v@.subrange(0, p.len() as int) =~= v@.take(p.len() as int));
        }
        return None;
    }
    proof {
        assert(v@.subrange(0, p.len() as int) =~= v@.take(p.len() as int));
    }
    let start = pat.len();
    let ghost rest = v@.skip(start as int);
    proof {
        assert(v@.subrange(start as int, v@.len() as int) =~= rest);
    }
    match find_range(v, start, v.len(), &[' ', 'f', 'o', 'r', ' ']) {
        Some(i) => {
            proof {
                assert(rest.take(i - start) =~= v@.subrange(start as int, i as int));
                assert(rest.skip(i - start + 5) =~= v@.subrange(i + 5, v@.len() as int));
            }
            Some(((start, i), (i + 5, v.len())))
        },
        None => None,
    }
}

/// Adds each slot of `b` into `a`.
pub fn add_slots(a: &mut Vec<u32>, b: &Vec<u32>)
    requires
        old(a)@.len() == 5,
        b@.len() == 5,
        forall|k: int| 0 <= k < 5 ==> old(a)@[k] + b@[k] <= u32::MAX,
    ensures
        final(a)@.len() == 5,
        forall|k: int| 0 <= k < 5 ==> final(a)@[k] == old(a)@[k] + b@[k],
{
    let mut k: usize = 0;
    while k < 5
        invariant
            a@.len() == 5,
            b@.len() == 5,
            k <= 5,
            forall|m: int| 0 <= m < 5 ==> old(a)@[m] + b@[m] <= u32::MAX,
            forall|m: int| 0 <= m < k ==> a@[m] == old(a)@[m] + b@[m],
            forall|m: int| k <= m < 5 ==> a@[m] == old(a)@[m],
        decreases 5 - k,
    {
        let x = a[k] + b[k];
        a.set(k, x);
        k = k + 1;
    }
}

/// Adds one line's two sides into the running totals, if it is a trade line
/// of the player called `name`.
fn add_line(give: &mut Vec<u32>, receive: &mut Vec<u32>, line: &str, name: &str)
    requires
        old(give)@.len() == 5,
        old(receive)@.len() == 5,
        forall|k: int|
            0 <= k < 5 ==> old(give)@[k] + given(line@, name@, #[trigger] slot_resource(k)) <= u32::MAX
                && old(receive)@[k] + got(line@, name@, slot_resource(k)) <= u32::MAX,
    ensures
        final(give)@.len() == 5,
        final(receive)@.len() == 5,
        forall|k: int|
            0 <= k < 5 ==> final(give)@[k] == old(give)@[k] + given(line@, name@, #[trigger] slot_resource(k))
                && final(receive)@[k] == old(receive)@[k] + got(line@, name@, slot_resource(k)),
{
    let v = chars_of(line);
    match parse_ranges(&v, name) {
        Some(((a, b), (c, d))) => {
            let g = side_totals(&v, a, b);
            let h = side_totals(&v, c, d);
            proof {
                assert forall|k: int| 0 <= k < 5 implies give@[k] + g@[k] <= u32::MAX && receive@[k] + h@[k] <= u32::MAX
                    && g@[k] == given(line@, name@, #[trigger] slot_resource(k)) && h@[k] == got(line@, name@, slot_resource(k)) by {
                    assert(g@[k] == side_total(v@.subrange(a as int, b as int), slot_resource(k)));
                    assert(h@[k] == side_total(v@.subrange(c as int, d as int), slot_resource(k)));
                }
                assert forall|k: int| 0 <= k < 5 implies #[trigger] give@[k] + g@[k] <= u32::MAX by {
                    let r = slot_resource(k);
                }
                assert forall|k: int| 0 <= k < 5 implies #[trigger] receive@[k] + h@[k] <= u32::MAX by {
                    let r = slot_resource(k);
                }
            }
            add_slots(give, &g);
            add_slots(receive, &h);
        },
        None => {},
    }
}

/// Two trade lines of one player as one: each resource given and received
/// is added up across both, and the total written out in card order.
pub fn merge_bank_trade_lines(existing: &str, incoming: &str, player_name: &str) -> (s: String)
    requires
        merge_fits(existing@, incoming@, player_name@),
    ensures
        s@ == merged_line(existing@, incoming@, player_name@),
{
    let mut give: Vec<u32> = vec![0, 0, 0, 0, 0];
    let mut receive: Vec<u32> = vec![0, 0, 0, 0, 0];
    proof {
        assert forall|k: int| 0 <= k < 5 implies give@[k] + given(existing@, player_name@, #[trigger] slot_resource(k))
            <= u32::MAX && receive@[k] + got(existing@, player_name@, slot_resource(k)) <= u32::MAX by {
            let r = slot_resource(k);
            assert(given(existing@, player_name@, r) + given(incoming@, player_name@, r) <= u32::MAX);
        }
    }
    add_line(&mut give, &mut receive, existing, player_name);
    proof {
        assert forall|k: int| 0 <= k < 5 implies give@[k] + given(incoming@, player_name@, #[trigger] slot_resource(k))
            <= u32::MAX && receive@[k] + got(incoming@, player_name@, slot_resource(k)) <= u32::MAX by {
            let r = slot_resource(k);
            assert(given(existing@, player_name@, r) + given(incoming@, player_name@, r) <= u32::MAX);
        }
    }
    add_line(&mut give, &mut receive, incoming, player_name);
    let gl = listed_from(&give);
    let rl = listed_from(&receive);
    proof {
        assert(slot_resource(0) == ResourceType::Wood);
        assert(slot_resource(1) == ResourceType::Brick);
        assert(slot_resource(2) == ResourceType::Sheep);
        assert(slot_resource(3) == ResourceType::Wheat);
        assert(slot_resource(4) == ResourceType::Ore);
        let e = existing@;
        let i = incoming@;
        let n = player_name@;
        assert(gl@ =~= listed(|r: ResourceType| given(e, n, r) + given(i, n, r)));
        assert(rl@ =~= listed(|r: ResourceType| got(e, n, r) + got(i, n, r)));
    }
    bank_trade_summary(player_name, gl, rl)
}

/// A count of at least one.
pub open spec fn at_least_one(n: u32) -> u32 {
    if n == 0 {
        1
    } else {
        n
    }
}

/// Whether the last line of the log is a trade line of the player called `name`.
pub open spec fn continues_trades(log: Seq<Seq<char>>, name: Seq<char>) -> bool {
    log.len() > 0 && trade_prefix(name).len() <= log.last().len() && log.last().take(
        trade_prefix(name).len() as int,
    ) == trade_prefix(name)
}

/// The log line for a trade with the bank, before any merging.
pub open spec fn bank_line(s: GameState, player_id: PlayerId, gave: ResourceType, received: ResourceType, gave_count: u32, received_count: u32) -> Seq<char> {
    bank_trade_line(
        name_of(s.players@, player_id),
        at_least_one(gave_count) as nat,
        gave,
        at_least_one(received_count) as nat,
        received,
    )
}

/// Where a trade with the bank would be merged into the log's last line, the
/// amounts added up stay within 32 bits.
pub open spec fn bank_merge_fits(s: GameState, player_id: PlayerId, gave: ResourceType, received: ResourceType, gave_count: u32, received_count: u32) -> bool {
    let name = name_of(s.players@, player_id);
    let log = log_of(s.messages@);
    continues_trades(log, name) ==> merge_fits(
        log.last(),
        bank_line(s, player_id, gave, received, gave_count, received_count),
        name,
    )
}

/// The log after a trade with the bank: the trade's line is merged into the
/// last line when that is a trade line of the same player, and added after
/// it otherwise.
pub open spec fn bank_log(s: GameState, player_id: PlayerId, gave: ResourceType, received: ResourceType, gave_count: u32, received_count: u32) -> Seq<Seq<char>> {
    let name = name_of(s.players@, player_id);
    let log = log_of(s.messages@);
    let line = bank_line(s, player_id, gave, received, gave_count, received_count);
    if continues_trades(log, name) {
        log.drop_last().push(merged_line(log.last(), line, name))
    } else {
        log.push(line)
    }
}

/// Whether `v` begins with `p`.
pub fn begins_with(v: &Vec<char>, p: &Vec<char>) -> (b: bool)
    ensures
        b == (p@.len() <= v@.len() && v@.take(p@.len() as int) == p@),
{
    if p.len() > v.len() {
        return false;
    }
    let b = occurs_at(v, 0, p.as_slice());
    proof {
        assert(v@.subrange(0, p@.len() as int) =~= v@.take(p@.len() as int));
    }
    b
}

/// The log's last line, if it is a trade line of the player called `name`.
fn last_trade_line(messages: &Vec<String>, name: &String) -> (b: bool)
    ensures
        b == continues_trades(log_of(messages@), name@),
{
    let n = messages.len();
    if n == 0 {
        return false;
    }
    let last = chars_of(messages[n - 1].as_str());
    let mut pat = chars_of(name.as_str());
    let mut tail = chars_of(" traded ");
    pat.append(&mut tail);
    proof {
        assert(log_of(messages@).last() == messages@[n - 1]@);
        assert(pat@ =~= trade_prefix(name@));
    }
    begins_with(&last, &pat)
}

/// The log with its last line replaced by `line`.
fn replace_last(messages: &mut Vec<String>, line: String)
    requires
        old(messages)@.len() > 0,
    ensures
        log_of(final(messages)@) == log_of(old(messages)@).drop_last().push(line@),
{
    let n = messages.len();
    messages.set(n - 1, line);
    proof {
        assert(log_of(messages@) =~= log_of(old(messages)@).drop_last().push(line@));
    }
}

/// The log with `line` added at its end.
fn append_line(messages: &mut Vec<String>, line: String)
    ensures
        log_of(final(messages)@) == log_of(old(messages)@).push(line@),
{
    messages.push(line);
    proof {
        assert(log_of(messages@) =~= log_of(old(messages)@).push(line@));
    }
}

impl GameState {
    /// A player traded with the bank: the log gains the trade, merged into
    /// the last line when that player's trades already stand there.
    pub(crate) fn on_bank_trade(
        &mut self,
        player_id: PlayerId,
        gave: ResourceType,
        received: ResourceType,
        gave_count: u32,
        received_count: u32,
    )
        requires
            bank_merge_fits(*old(self), player_id, gave, received, gave_count, received_count),
        ensures
            log_of(final(self).messages@) == bank_log(*old(self), player_id, gave, received, gave_count, received_count),
            *final(self) == (GameState { messages: final(self).messages, ..*old(self) }),
    {
        let name = self.player_name(player_id);
        let gc = if gave_count == 0 { 1 } else { gave_count };
        let rc = if received_count == 0 { 1 } else { received_count };
        let line = bank_trade_text(&name, gc, gave, rc, received);
        if last_trade_line(&self.messages, &name) {
            let n = self.messages.len();
            let merged = merge_bank_trade_lines(self.messages[n - 1].as_str(), line.as_str(), name.as_str());
            replace_last(&mut self.messages, merged);
        } else {
            append_line(&mut self.messages, line);
        }
    }
}

/// The text of `v[lo..hi]` as a string.
pub fn string_of_range(v: &Vec<char>, lo: usize, hi: usize) -> (s: String)
    requires
        lo <= hi <= v@.len(),
    ensures
        s@ == v@.subrange(lo as int, hi as int),
{
    let mut s = String::new();
    let mut j = lo;
    while j < hi
        invariant
            lo <= j <= hi <= v@.len(),
            s@ == v@.subrange(lo as int, j as int),
        decreases hi - j,
    {
        push_char(&mut s, v[j]);
        j = j + 1;
        proof {
            assert(s@ =~= v@.subrange(lo as int, j as int));
        }
    }
    s
}

/// A string without white space at either end.
pub fn trimmed(t: &str) -> (s: String)
    ensures
        s@ == trim(t@),
{
    let v = chars_of(t);
    let (a, b) = trim_range(&v, 0, v.len());
    proof {
        assert(v@.subrange(0, v@.len() as int) =~= t@);
    }
    string_of_range(&v, a, b)
}

/// Where `v[lo..hi]` begins once its leading white space is cut.
pub fn trim_front_index(v: &Vec<char>, lo: usize, hi: usize) -> (a: usize)
    requires
        lo <= hi <= v@.len(),
    ensures
        lo <= a <= hi,
        v@.subrange(a as int, hi as int) == trim_front(v@.subrange(lo as int, hi as int)),
{
    let mut a = lo;
    while a < hi && is_space(v[a])
        invariant
            lo <= a <= hi <= v@.len(),
            trim_front(v@.subrange(lo as int, hi as int)) == trim_front(v@.subrange(a as int, hi as int)),
        decreases hi - a,
    {
        proof {
            assert(v@.subrange(a as int, hi as int).drop_first() =~= v@.subrange(a + 1, hi as int));
        }
        a = a + 1;
    }
    a
}

/// A total counted no higher than one past the 32-bit range.
pub open spec fn capped(n: nat) -> nat {
    if n > u32::MAX + 1 {
        (u32::MAX + 1) as nat
    } else {
        n
    }
}

/// What one side `v[lo..hi]` of a trade line counts of each resource, slot
/// by slot, each total counted no higher than one past the 32-bit range.
pub fn side_totals_capped(v: &Vec<char>, lo: usize, hi: usize) -> (acc: Vec<u64>)
    requires
        lo <= hi <= v@.len(),
    ensures
        acc@.len() == 5,
        forall|k: int|
            0 <= k < 5 ==> acc@[k] == capped(side_total(v@.subrange(lo as int, hi as int), #[trigger] slot_resource(k))),
{
    let ghost s = v@.subrange(lo as int, hi as int);
    let cap: u64 = 0x1_0000_0000;
    let parts = split_ranges(v, lo, hi, &[' ', 'a', 'n', 'd', ' ']);
    let ghost ps = range_texts(v@, parts@);
    let mut acc: Vec<u64> = vec![0, 0, 0, 0, 0];
    let mut i: usize = 0;
    while i < parts.len()
        invariant
            lo <= hi <= v@.len(),
            cap == u32::MAX + 1,
            s == v@.subrange(lo as int, hi as int),
            ps == range_texts(v@, parts@),
            ps == split(s, and_sep()),
            forall|k: int| 0 <= k < parts@.len() ==> lo <= (#[trigger] parts@[k]).0 <= parts@[k].1 <= hi,
            i <= parts@.len(),
            acc@.len() == 5,
            forall|k: int|
                0 <= k < 5 ==> acc@[k] == capped(sum_over(ps.take(i as int), part_weight(#[trigger] slot_resource(k)))),
        decreases parts@.len() - i,
    {
        let (a, b) = parts[i];
        let chunks = split_ranges(v, a, b, &[',', ' ']);
        let ghost cs = range_texts(v@, chunks@);
        proof {
            assert(ps[i as int] == v@.subrange(a as int, b as int));
        }
        let mut j: usize = 0;
        while j < chunks.len()
            invariant
                lo <= a <= b <= hi <= v@.len(),
                cap == u32::MAX + 1,
                i < ps.len(),
                ps[i as int] == v@.subrange(a as int, b as int),
                cs == range_texts(v@, chunks@),
                cs == split(ps[i as int], comma_sep()),
                forall|k: int| 0 <= k < chunks@.len() ==> a <= (#[trigger] chunks@[k]).0 <= chunks@[k].1 <= b,
                j <= chunks@.len(),
                acc@.len() == 5,
                forall|k: int|
                    0 <= k < 5 ==> acc@[k] == capped(
                        sum_over(ps.take(i as int), part_weight(#[trigger] slot_resource(k))) + sum_over(
                            cs.take(j as int),
                            chunk_weight(slot_resource(k)),
                        ),
                    ),
            decreases chunks@.len() - j,
        {
            let (c0, c1) = chunks[j];
            let e = chunk_parse(v, c0, c1);
            proof {
                assert(cs[j as int] == v@.subrange(c0 as int, c1 as int));
                assert forall|k: int| 0 <= k < 5 implies sum_over(cs.take(j + 1), chunk_weight(#[trigger] slot_resource(k)))
                    == sum_over(cs.take(j as int), chunk_weight(slot_resource(k))) + chunk_weight(slot_resource(k))(cs[j as int]) by {
                    lemma_sum_step(cs, chunk_weight(slot_resource(k)), j as int);
                }
                lemma_no_desert(cs[j as int]);
            }
            match e {
                Some((r, n)) => {
                    let k = r.card_index().unwrap();
                    let old_acc = acc[k];
                    let raised = if old_acc + (n as u64) > cap {
                        cap
                    } else {
                        old_acc + (n as u64)
                    };
                    acc.set(k, raised);
                    proof {
                        assert(slot_resource(k as int) == r);
                        assert(chunk_weight(r)(cs[j as int]) == n);
                    }
                },
                None => {},
            }
            j = j + 1;
        }
        proof {
            assert(cs.take(chunks@.len() as int) =~= cs);
            assert forall|k: int| 0 <= k < 5 implies acc@[k] == capped(sum_over(ps.take(i + 1), part_weight(#[trigger] slot_resource(k)))) by {
                lemma_sum_step(ps, part_weight(slot_resource(k)), i as int);
            }
        }
        i = i + 1;
    }
    proof {
        assert(ps.take(parts@.len() as int) =~= ps);
    }
    acc
}

/// Adds one line's two sides, capped, into running totals.
fn add_line_capped(give: &mut Vec<u64>, receive: &mut Vec<u64>, line: &str, name: &str)
    requires
        old(give)@.len() == 5,
        old(receive)@.len() == 5,
        forall|k: int| 0 <= k < 5 ==> old(give)@[k] <= u32::MAX + 1 && old(receive)@[k] <= u32::MAX + 1,
    ensures
        final(give)@.len() == 5,
        final(receive)@.len() == 5,
        forall|k: int|
            0 <= k < 5 ==> final(give)@[k] == old(give)@[k] + capped(given(line@, name@, #[trigger] slot_resource(k)))
                && final(receive)@[k] == old(receive)@[k] + capped(got(line@, name@, slot_resource(k))),
{
    let v = chars_of(line);
    match parse_ranges(&v, name) {
        Some(((a, b), (c, d))) => {
            let g = side_totals_capped(&v, a, b);
            let h = side_totals_capped(&v, c, d);
            proof {
                assert forall|m: int| 0 <= m < 5 implies #[trigger] g@[m] <= u32::MAX + 1 && h@[m] <= u32::MAX + 1 by {
                    let r = slot_resource(m);
                }
            }
            let mut k: usize = 0;
            while k < 5
                invariant
                    give@.len() == 5,
                    receive@.len() == 5,
                    g@.len() == 5,
                    h@.len() == 5,
                    k <= 5,
                    forall|m: int| 0 <= m < 5 ==> g@[m] <= u32::MAX + 1 && h@[m] <= u32::MAX + 1,
                    forall|m: int| 0 <= m < 5 ==> old(give)@[m] <= u32::MAX + 1 && old(receive)@[m] <= u32::MAX + 1,
                    forall|m: int| 0 <= m < k ==> give@[m] == old(give)@[m] + g@[m] && receive@[m] == old(receive)@[m] + h@[m],
                    forall|m: int| k <= m < 5 ==> give@[m] == old(give)@[m] && receive@[m] == old(receive)@[m],
                decreases 5 - k,
            {
                let x = give[k] + g[k];
                give.set(k, x);
                let y = receive[k] + h[k];
                receive.set(k, y);
                k = k + 1;
            }
            proof {
                assert forall|m: int| 0 <= m < 5 implies give@[m] == old(give)@[m] + capped(given(line@, name@, #[trigger] slot_resource(m)))
                    && receive@[m] == old(receive)@[m] + capped(got(line@, name@, slot_resource(m))) by {
                    assert(g@[m] == capped(side_total(v@.subrange(a as int, b as int), slot_resource(m))));
                    assert(h@[m] == capped(side_total(v@.subrange(c as int, d as int), slot_resource(m))));
                }
            }
        },
        None => {},
    }
}

/// Whether two trade lines of one player can be merged within 32 bits.
pub fn merge_would_fit(existing: &str, incoming: &str, player_name: &str) -> (b: bool)
    ensures
        b == merge_fits(existing@, incoming@, player_name@),
{
    let mut give: Vec<u64> = vec![0, 0, 0, 0, 0];
    let mut receive: Vec<u64> = vec![0, 0, 0, 0, 0];
    add_line_capped(&mut give, &mut receive, existing, player_name);
    add_line_capped(&mut give, &mut receive, incoming, player_name);
    let mut k: usize = 0;
    while k < 5
        invariant
            give@.len() == 5,
            receive@.len() == 5,
            k <= 5,
            forall|m: int|
                0 <= m < 5 ==> give@[m] == capped(given(existing@, player_name@, #[trigger] slot_resource(m))) + capped(
                    given(incoming@, player_name@, slot_resource(m)),
                ) && receive@[m] == capped(got(existing@, player_name@, slot_resource(m))) + capped(
                    got(incoming@, player_name@, slot_resource(m)),
                ),
            forall|m: int|
                0 <= m < k ==> given(existing@, player_name@, #[trigger] slot_resource(m)) + given(
                    incoming@,
                    player_name@,
                    slot_resource(m),
                ) <= u32::MAX && got(existing@, player_name@, slot_resource(m)) + got(
                    incoming@,
                    player_name@,
                    slot_resource(m),
                ) <= u32::MAX,
        decreases 5 - k,
    {
        if give[k] > 0xffff_ffff || receive[k] > 0xffff_ffff {
            proof {
                let r = slot_resource(k as int);
                assert(!(given(existing@, player_name@, r) + given(incoming@, player_name@, r) <= u32::MAX && got(
                    existing@,
                    player_name@,
                    r,
                ) + got(incoming@, player_name@, r) <= u32::MAX));
            }
            return false;
        }
        k = k + 1;
    }
    proof {
        assert forall|r: ResourceType|
            #![trigger given(existing@, player_name@, r)]
            given(existing@, player_name@, r) + given(incoming@, player_name@, r) <= u32::MAX && got(
                existing@,
                player_name@,
                r,
            ) + got(incoming@, player_name@, r) <= u32::MAX by {
            match r {
                ResourceType::Wood => assert(slot_resource(0) == r),
                ResourceType::Brick => assert(slot_resource(1) == r),
                ResourceType::Sheep => assert(slot_resource(2) == r),
                ResourceType::Wheat => assert(slot_resource(3) == r),
                ResourceType::Ore => assert(slot_resource(4) == r),
                ResourceType::Desert => {
                    lemma_no_desert_total(existing@, incoming@, player_name@);
                },
            }
        }
    }
    true
}

/// A sum of zeros is zero.
pub proof fn lemma_sum_zero<A>(s: Seq<A>, f: spec_fn(A) -> nat)
    requires
        forall|x: A| #[trigger] f(x) == 0,
    ensures
        sum_over(s, f) == 0,
    decreases s.len(),
{
    if s.len() > 0 {
        lemma_sum_zero(s.drop_last(), f);
    }
}

/// No side of a trade line counts any desert.
pub proof fn lemma_no_desert_side(side: Seq<char>)
    ensures
        side_total(side, ResourceType::Desert) == 0,
{
    assert forall|c: Seq<char>| #[trigger] chunk_weight(ResourceType::Desert)(c) == 0 by {
        lemma_no_desert(c);
    }
    assert forall|p: Seq<char>| #[trigger] part_weight(ResourceType::Desert)(p) == 0 by {
        lemma_sum_zero(split(p, comma_sep()), chunk_weight(ResourceType::Desert));
    }
    lemma_sum_zero(split(side, and_sep()), part_weight(ResourceType::Desert));
}

/// No trade line counts any desert on either side.
pub proof fn lemma_no_desert_total(a: Seq<char>, b: Seq<char>, name: Seq<char>)
    ensures
        given(a, name, ResourceType::Desert) == 0,
        given(b, name, ResourceType::Desert) == 0,
        got(a, name, ResourceType::Desert) == 0,
        got(b, name, ResourceType::Desert) == 0,
{
    match parse_line(a, name) {
        Some((g, h)) => {
            lemma_no_desert_side(g);
            lemma_no_desert_side(h);
        },
        None => {},
    }
    match parse_line(b, name) {
        Some((g, h)) => {
            lemma_no_desert_side(g);
            lemma_no_desert_side(h);
        },
        None => {},
    }
}

impl GameState {
    /// Whether a trade with the bank can be logged without its merged
    /// amounts passing 32 bits.
    pub fn bank_merge_ok(
        &self,
        player_id: PlayerId,
        gave: ResourceType,
        received: ResourceType,
        gave_count: u32,
        received_count: u32,
    ) -> (b: bool)
        ensures
            b == bank_merge_fits(*self, player_id, gave, received, gave_count, received_count),
    {
        let name = self.player_name(player_id);
        let gc = if gave_count == 0 { 1 } else { gave_count };
        let rc = if received_count == 0 { 1 } else { received_count };
        let line = bank_trade_text(&name, gc, gave, rc, received);
        if last_trade_line(&self.messages, &name) {
            let n = self.messages.len();
            proof {
                assert(log_of(self.messages@).last() == self.messages@[n - 1]@);
            }
            merge_would_fit(self.messages[n - 1].as_str(), line.as_str(), name.as_str())
        } else {
            true
        }
    }
}

} // verus!
