//! What a written trade summary reads back as: the amounts a summary line
//! writes are the amounts a trade line's reader finds in it, so merging
//! two trade lines of a player keeps every total.

use vstd::prelude::*;
use crate::rules::{ResourceType, resource_name};
use crate::text::{decimal, digit_char};
use crate::banklog::{
    amount_text, ascii_lower, chunk_entry, count_of, decimal_digit, digits_value, first_space, number_of,
    resource_key, space_char, trim, trim_front, unsigned_digits, word_resource, split_scan, split, find_from,
    join_with, and_sep, comma_sep, for_sep, sum_over, chunk_weight, part_weight, side_total, shown, amounts_text,
    entry_of, listed, parse_line, trade_prefix, given, got, merge_fits, merged_line, lemma_no_desert_total, summary_line,
};
use crate::trades::lemma_keep_all;

verus! {

/// A decimal number is a non-empty run of digits whose value is the number.
proof fn lemma_decimal_reads(n: nat)
    ensures
        decimal(n).len() > 0,
        forall|i: int| 0 <= i < decimal(n).len() ==> decimal_digit(#[trigger] decimal(n)[i]),
        digits_value(decimal(n)) == n,
    decreases n,
{
    if n >= 10 {
        lemma_decimal_reads(n / 10);
        let d = decimal(n / 10);
        let c = digit_char(n % 10);
        lemma_digit_value(n % 10);
        assert(decimal(n) == d.push(c));
        assert(decimal(n).drop_last() =~= d);
        assert(decimal(n).last() == c);
        assert(digits_value(decimal(n)) == digits_value(d) * 10 + (n % 10));
        assert((n / 10) * 10 + n % 10 == n);
    } else {
        lemma_digit_value(n);
        let s = seq![digit_char(n)];
        assert(decimal(n) == s);
        assert(s.drop_last() =~= Seq::<char>::empty());
        assert(digits_value(s) == digits_value(s.drop_last()) * 10 + ((s.last() as u32) - ('0' as u32)) as nat);
    }
}

/// A digit's character stands for the digit.
proof fn lemma_digit_value(k: nat)
    requires
        k < 10,
    ensures
        decimal_digit(digit_char(k)),
        (digit_char(k) as u32) - ('0' as u32) == k,
{
}

/// The lower-case name of a resource: letters only, none of them `n` or
/// `f`, and read back as the same resource.
proof fn lemma_name_reads(r: ResourceType)
    requires
        r != ResourceType::Desert,
    ensures
        ({
            let w = ascii_lower(resource_name(r));
            &&& w.len() > 0
            &&& forall|i: int|
                0 <= i < w.len() ==> 'a' <= #[trigger] w[i] <= 'z' && w[i] != 'n' && w[i] != 'f'
            &&& ascii_lower(w) == w
            &&& word_resource(w) == Some(r)
        }),
{
    let w = ascii_lower(resource_name(r));
    match r {
        ResourceType::Wood => {
            reveal_strlit("Wood");
            assert(w =~= seq!['w', 'o', 'o', 'd']);
        },
        ResourceType::Brick => {
            reveal_strlit("Brick");
            assert(w =~= seq!['b', 'r', 'i', 'c', 'k']);
        },
        ResourceType::Sheep => {
            reveal_strlit("Sheep");
            assert(w =~= seq!['s', 'h', 'e', 'e', 'p']);
        },
        ResourceType::Wheat => {
            reveal_strlit("Wheat");
            assert(w =~= seq!['w', 'h', 'e', 'a', 't']);
        },
        ResourceType::Ore => {
            reveal_strlit("Ore");
            assert(w =~= seq!['o', 'r', 'e']);
        },
        ResourceType::Desert => {},
    }
    assert(ascii_lower(w) =~= w);
}

/// The first white space at or after `i` is at `k` when `t[i..k]` holds
/// none and `t[k]` is one.
proof fn lemma_first_space_at(t: Seq<char>, i: int, k: int)
    requires
        0 <= i <= k < t.len(),
        space_char(t[k]),
        forall|j: int| i <= j < k ==> !space_char(#[trigger] t[j]),
    ensures
        first_space(t, i) == k,
    decreases k - i,
{
    if i < k {
        lemma_first_space_at(t, i + 1, k);
    }
}

/// Trimming leaves text that starts and ends with no white space as it is.
proof fn lemma_trim_keeps(s: Seq<char>)
    requires
        s.len() > 0,
        !space_char(s[0]),
        !space_char(s.last()),
    ensures
        trim(s) == s,
{
}

/// One written amount, such as `3 wood`, reads back as that amount.
proof fn lemma_amount_reads(e: (ResourceType, u32))
    requires
        e.0 != ResourceType::Desert,
        e.1 > 0,
    ensures
        chunk_entry(amount_text(e)) == Some((e.0, e.1 as nat)),
        forall|i: int|
            0 <= i < amount_text(e).len() ==> #[trigger] amount_text(e)[i] != 'n' && amount_text(e)[i] != 'f'
                && amount_text(e)[i] != ',',
{
    let d = decimal(e.1 as nat);
    let w = ascii_lower(resource_name(e.0));
    lemma_decimal_reads(e.1 as nat);
    lemma_name_reads(e.0);
    let c = amount_text(e);
    assert(c == d + seq![' '] + w);
    let k = d.len() as int;
    assert(c[0] == d[0]);
    assert(c.last() == w.last());
    assert(w.last() == w[w.len() - 1]);
    lemma_trim_keeps(c);
    assert(c[k] == ' ');
    assert forall|j: int| 0 <= j < k implies !space_char(#[trigger] c[j]) by {
        assert(c[j] == d[j]);
        assert(decimal_digit(d[j]));
    }
    lemma_first_space_at(c, 0, k);
    assert(c.take(k) =~= d);
    assert(unsigned_digits(d) == d);
    assert(number_of(d, u32::MAX as nat) == Some(e.1 as nat));
    assert(count_of(c.take(k)) == e.1 as nat);
    let rest = c.skip(k);
    assert(rest =~= seq![' '] + w);
    assert(trim_front(rest) == trim_front(w)) by {
        assert(rest.drop_first() =~= w);
    }
    assert(w[0] != ' ');
    lemma_trim_keeps(w);
    assert(trim(rest) == w);
    assert(resource_key(rest) == Some(e.0));
    assert forall|i: int| 0 <= i < c.len() implies #[trigger] c[i] != 'n' && c[i] != 'f' && c[i] != ',' by {
        if i < k {
            assert(c[i] == d[i]);
            assert(decimal_digit(d[i]));
        } else if i > k {
            assert(c[i] == w[i - k - 1]);
        }
    }
}

/// With no occurrence of `sep` from `i` on, the scan gives the rest of `s`
/// as its last piece.
proof fn lemma_scan_none(s: Seq<char>, sep: Seq<char>, start: int, i: int)
    requires
        sep.len() > 0,
        0 <= start <= i,
        start <= s.len(),
        forall|j: int| i <= j && j + sep.len() <= s.len() ==> #[trigger] s.subrange(j, j + sep.len()) != sep,
    ensures
        split_scan(s, sep, start, i) == seq![s.subrange(start, s.len() as int)],
    decreases s.len() - i,
{
    if i + sep.len() <= s.len() {
        assert(s.subrange(i, i + sep.len()) != sep);
        lemma_scan_none(s, sep, start, i + 1);
    }
}

/// With the first occurrence of `sep` from `i` on at `m`, the scan ends
/// its piece there and goes on after it.
proof fn lemma_scan_to(s: Seq<char>, sep: Seq<char>, start: int, i: int, m: int)
    requires
        sep.len() > 0,
        0 <= start <= i <= m,
        m + sep.len() <= s.len(),
        s.subrange(m, m + sep.len()) == sep,
        forall|j: int| i <= j < m ==> #[trigger] s.subrange(j, j + sep.len()) != sep,
    ensures
        split_scan(s, sep, start, i) == seq![s.subrange(start, m)] + split_scan(
            s,
            sep,
            m + sep.len(),
            m + sep.len(),
        ),
    decreases m - i,
{
    if i < m {
        assert(s.subrange(i, i + sep.len()) != sep);
        lemma_scan_to(s, sep, start, i + 1, m);
    }
}

/// Scanning past a prefix is scanning what follows it.
proof fn lemma_scan_shift(p: Seq<char>, y: Seq<char>, sep: Seq<char>, a: int, b: int)
    requires
        sep.len() > 0,
        0 <= a <= b,
        a <= y.len(),
    ensures
        split_scan(p + y, sep, p.len() + a, p.len() + b) == split_scan(y, sep, a, b),
    decreases y.len() - b,
{
    let s = p + y;
    let o = p.len() as int;
    if b + sep.len() > y.len() {
        assert(s.subrange(o + a, s.len() as int) =~= y.subrange(a, y.len() as int));
    } else {
        assert(s.subrange(o + b, o + b + sep.len()) =~= y.subrange(b, b + sep.len()));
        if y.subrange(b, b + sep.len()) == sep {
            assert(s.subrange(o + a, o + b) =~= y.subrange(a, b));
            lemma_scan_shift(p, y, sep, b + sep.len(), b + sep.len());
        } else {
            lemma_scan_shift(p, y, sep, a, b + 1);
        }
    }
}

/// A join of two or more parts is the first part, `sep`, and the join of
/// the others.
proof fn lemma_join_front(parts: Seq<Seq<char>>, sep: Seq<char>)
    requires
        parts.len() >= 2,
    ensures
        join_with(parts, sep) == parts[0] + sep + join_with(parts.drop_first(), sep),
    decreases parts.len(),
{
    if parts.len() == 2 {
        assert(parts.drop_last() =~= seq![parts[0]]);
        assert(parts.drop_first() =~= seq![parts[1]]);
        assert(join_with(parts.drop_last(), sep) == parts[0]);
        assert(join_with(parts.drop_first(), sep) == parts[1]);
        assert(join_with(parts, sep) == join_with(parts.drop_last(), sep) + sep + parts.last());
    } else {
        let dl = parts.drop_last();
        let df = parts.drop_first();
        lemma_join_front(dl, sep);
        assert(dl.drop_first() =~= df.drop_last());
        assert(dl[0] == parts[0]);
        assert(df.last() == parts.last());
        assert(join_with(parts, sep) == join_with(dl, sep) + sep + parts.last());
        assert(join_with(df, sep) == join_with(df.drop_last(), sep) + sep + df.last());
        assert(join_with(parts, sep) =~= parts[0] + sep + join_with(df, sep));
    }
}

/// Text with no `n` in it holds no ` and `, not even one that runs into
/// what follows it.
proof fn lemma_no_and_before(x: Seq<char>, y: Seq<char>, j: int)
    requires
        forall|i: int| 0 <= i < x.len() ==> #[trigger] x[i] != 'n',
        0 <= j < x.len(),
        j + and_sep().len() <= (x + y).len(),
        y.len() >= 2 ==> y[0] != 'n' && y[1] != 'n',
    ensures
        (x + y).subrange(j, j + and_sep().len()) != and_sep(),
{
    let s = x + y;
    if s.subrange(j, j + 5) == and_sep() {
        assert(s.subrange(j, j + 5)[2] == 'n');
        assert(s[j + 2] == 'n');
        if j + 2 < x.len() {
            assert(s[j + 2] == x[j + 2]);
        } else {
            assert(s[j + 2] == y[j + 2 - x.len()]);
        }
    }
}

/// Parts with no `n` in them, joined by ` and `, split back into the same
/// parts.
proof fn lemma_split_join(parts: Seq<Seq<char>>)
    requires
        parts.len() >= 1,
        forall|k: int, i: int| 0 <= k < parts.len() && 0 <= i < parts[k].len() ==> #[trigger] parts[k][i] != 'n',
    ensures
        split(join_with(parts, and_sep()), and_sep()) == parts,
    decreases parts.len(),
{
    let sep = and_sep();
    let p0 = parts[0];
    if parts.len() == 1 {
        assert(join_with(parts, sep) == p0);
        assert forall|j: int| 0 <= j && j + sep.len() <= p0.len() implies #[trigger] p0.subrange(j, j + sep.len())
            != sep by {
            lemma_no_and_before(p0, Seq::empty(), j);
            assert(p0 + Seq::<char>::empty() =~= p0);
        }
        lemma_scan_none(p0, sep, 0, 0);
        assert(p0.subrange(0, p0.len() as int) =~= p0);
        assert(parts =~= seq![p0]);
    } else {
        let rest = parts.drop_first();
        lemma_join_front(parts, sep);
        lemma_split_join(rest);
        let jr = join_with(rest, sep);
        let s = p0 + sep + jr;
        let m = p0.len() as int;
        assert(s.subrange(m, m + 5) =~= sep);
        assert forall|j: int| 0 <= j < m implies #[trigger] s.subrange(j, j + sep.len()) != sep by {
            assert(s =~= p0 + (sep + jr));
            lemma_no_and_before(p0, sep + jr, j);
        }
        lemma_scan_to(s, sep, 0, 0, m);
        assert(s.subrange(0, m) =~= p0);
        assert(s =~= (p0 + sep) + jr);
        lemma_scan_shift(p0 + sep, jr, sep, 0, 0);
        assert(parts =~= seq![p0] + rest);
    }
}

/// Text with no comma in it is one piece between commas.
proof fn lemma_split_no_comma(p: Seq<char>)
    requires
        forall|i: int| 0 <= i < p.len() ==> #[trigger] p[i] != ',',
    ensures
        split(p, comma_sep()) == seq![p],
{
    let sep = comma_sep();
    assert forall|j: int| 0 <= j && j + sep.len() <= p.len() implies #[trigger] p.subrange(j, j + sep.len()) != sep by {
        assert(p.subrange(j, j + 2)[0] == p[j]);
    }
    lemma_scan_none(p, sep, 0, 0);
    assert(p.subrange(0, p.len() as int) =~= p);
}

/// In `a`, ` for `, `b`, with no `f` in `a`, the first ` for ` is the one
/// after `a`.
proof fn lemma_find_for(a: Seq<char>, b: Seq<char>, i: int)
    requires
        forall|k: int| 0 <= k < a.len() ==> #[trigger] a[k] != 'f',
        0 <= i <= a.len(),
    ensures
        find_from(a + for_sep() + b, for_sep(), i) == Some(a.len() as int),
    decreases a.len() - i,
{
    let s = a + for_sep() + b;
    if i < a.len() {
        assert(s.subrange(i, i + 5) != for_sep()) by {
            if s.subrange(i, i + 5) == for_sep() {
                assert(s.subrange(i, i + 5)[1] == 'f');
                if i + 1 < a.len() {
                    assert(s[i + 1] == a[i + 1]);
                }
            }
        }
        lemma_find_for(a, b, i + 1);
    } else {
        assert(s.subrange(i, i + 5) =~= for_sep());
    }
}

/// How much of `r` one listed amount counts.
pub open spec fn amount_weight(r: ResourceType) -> spec_fn((ResourceType, u32)) -> nat {
    |e: (ResourceType, u32)|
        if e.0 == r {
            e.1 as nat
        } else {
            0
        }
}

/// A sum over one entry is that entry's value.
proof fn lemma_sum_single<A>(x: A, f: spec_fn(A) -> nat)
    ensures
        sum_over(seq![x], f) == f(x),
{
    let s = seq![x];
    assert(s.len() == 1);
    assert(s.drop_last() =~= Seq::<A>::empty());
    assert(sum_over(s.drop_last(), f) == 0);
    assert(s.last() == x);
    assert(sum_over(s, f) == sum_over(s.drop_last(), f) + f(s.last()));
}

/// One listed total reads back as itself.
proof fn lemma_entry_sum(q: ResourceType, n: nat, r: ResourceType)
    requires
        n <= u32::MAX,
    ensures
        sum_over(entry_of(q, n), amount_weight(r)) == if q == r {
            n
        } else {
            0
        },
        forall|i: int| 0 <= i < entry_of(q, n).len() ==> (#[trigger] entry_of(q, n)[i]).1 > 0 && entry_of(q, n)[i].0 == q,
{
    if n > 0 {
        lemma_sum_single((q, n as u32), amount_weight(r));
    }
}

/// Sums over two sequences agree where their entries agree one by one.
proof fn lemma_sum_pointwise<A, B>(a: Seq<A>, f: spec_fn(A) -> nat, b: Seq<B>, g: spec_fn(B) -> nat)
    requires
        a.len() == b.len(),
        forall|i: int| 0 <= i < a.len() ==> f(#[trigger] a[i]) == g(b[i]),
    ensures
        sum_over(a, f) == sum_over(b, g),
    decreases a.len(),
{
    if a.len() > 0 {
        assert forall|i: int| 0 <= i < a.drop_last().len() implies f(#[trigger] a.drop_last()[i]) == g(
            b.drop_last()[i],
        ) by {
            assert(a.drop_last()[i] == a[i]);
            assert(b.drop_last()[i] == b[i]);
        }
        lemma_sum_pointwise(a.drop_last(), f, b.drop_last(), g);
        assert(f(a.last()) == g(b.last())) by {
            assert(f(a[a.len() - 1]) == g(b[a.len() - 1]));
        }
    }
}

/// A sum over two sequences one after the other adds their sums.
proof fn lemma_sum_concat<A>(a: Seq<A>, b: Seq<A>, f: spec_fn(A) -> nat)
    ensures
        sum_over(a + b, f) == sum_over(a, f) + sum_over(b, f),
    decreases b.len(),
{
    if b.len() == 0 {
        assert(a + b =~= a);
    } else {
        lemma_sum_concat(a, b.drop_last(), f);
        assert((a + b).drop_last() =~= a + b.drop_last());
        assert((a + b).last() == b.last());
    }
}

/// A join of parts none of which holds `c`, by a separator without `c`,
/// holds no `c`.
proof fn lemma_join_avoids(parts: Seq<Seq<char>>, sep: Seq<char>, c: char)
    requires
        forall|k: int, i: int| 0 <= k < parts.len() && 0 <= i < parts[k].len() ==> #[trigger] parts[k][i] != c,
        forall|i: int| 0 <= i < sep.len() ==> #[trigger] sep[i] != c,
    ensures
        forall|i: int| 0 <= i < join_with(parts, sep).len() ==> #[trigger] join_with(parts, sep)[i] != c,
    decreases parts.len(),
{
    if parts.len() >= 2 {
        let d = parts.drop_last();
        assert forall|k: int, i: int| 0 <= k < d.len() && 0 <= i < d[k].len() implies #[trigger] d[k][i] != c by {
            assert(d[k] == parts[k]);
        }
        lemma_join_avoids(d, sep, c);
        let j = join_with(d, sep);
        let l = parts.last();
        assert forall|i: int| 0 <= i < join_with(parts, sep).len() implies #[trigger] join_with(parts, sep)[i] != c by {
            assert(join_with(parts, sep) == j + sep + l);
            if i < j.len() {
            } else if i < j.len() + sep.len() {
                assert((j + sep + l)[i] == sep[i - j.len()]);
            } else {
                assert((j + sep + l)[i] == l[i - j.len() - sep.len()]);
                assert(parts[parts.len() - 1][i - j.len() - sep.len()] != c);
            }
        }
    } else if parts.len() == 1 {
        assert(parts[0].len() >= 0);
    }
}

/// A side written from amounts that are all positive and none of them the
/// desert reads back, resource by resource, as the sum of those amounts.
proof fn lemma_side_reads(items: Seq<(ResourceType, u32)>, r: ResourceType)
    requires
        forall|i: int|
            0 <= i < shown(items).len() ==> (#[trigger] shown(items)[i]).1 > 0 && shown(items)[i].0
                != ResourceType::Desert,
    ensures
        side_total(amounts_text(items), r) == sum_over(shown(items), amount_weight(r)),
        forall|i: int| 0 <= i < amounts_text(items).len() ==> #[trigger] amounts_text(items)[i] != 'f',
{
    let sh = shown(items);
    let parts = sh.map_values(|e: (ResourceType, u32)| amount_text(e));
    let text = join_with(parts, and_sep());
    assert forall|k: int, i: int| 0 <= k < parts.len() && 0 <= i < parts[k].len() implies #[trigger] parts[k][i]
        != 'n' && parts[k][i] != 'f' by {
        lemma_amount_reads(sh[k]);
        assert(parts[k] == amount_text(sh[k]));
    }
    assert forall|i: int| 0 <= i < and_sep().len() implies #[trigger] and_sep()[i] != 'f' by {}
    lemma_join_avoids(parts, and_sep(), 'f');
    if sh.len() == 0 {
        assert(text == Seq::<char>::empty());
        let e = Seq::<char>::empty();
        assert(split(e, and_sep()) == seq![e.subrange(0, 0)]);
        assert(e.subrange(0, 0) =~= e);
        assert(split(e, comma_sep()) == seq![e.subrange(0, 0)]);
        assert(chunk_entry(e) is None);
        assert(chunk_weight(r)(e) == 0);
        lemma_sum_single(e, chunk_weight(r));
        assert(split(e, comma_sep()) == seq![e]);
        assert(part_weight(r)(e) == 0);
        lemma_sum_single(e, part_weight(r));
    } else {
        lemma_split_join(parts);
        assert forall|i: int| 0 <= i < parts.len() implies part_weight(r)(#[trigger] parts[i]) == amount_weight(r)(
            sh[i],
        ) by {
            let e = sh[i];
            let c = parts[i];
            assert(c == amount_text(e));
            lemma_amount_reads(e);
            lemma_split_no_comma(c);
            lemma_sum_single(c, chunk_weight(r));
        }
        lemma_sum_pointwise(parts, part_weight(r), sh, amount_weight(r));
    }
}

/// The totals `t` gives, listed and read back, are the totals again, as
/// long as each fits in 32 bits; the desert is never listed.
proof fn lemma_listed_sum(t: spec_fn(ResourceType) -> nat, r: ResourceType)
    requires
        forall|q: ResourceType| #[trigger] t(q) <= u32::MAX,
    ensures
        sum_over(listed(t), amount_weight(r)) == if r == ResourceType::Desert {
            0
        } else {
            t(r)
        },
        forall|i: int|
            0 <= i < listed(t).len() ==> (#[trigger] listed(t)[i]).1 > 0 && listed(t)[i].0 != ResourceType::Desert,
{
    let w = amount_weight(r);
    let e1 = entry_of(ResourceType::Wood, t(ResourceType::Wood));
    let e2 = entry_of(ResourceType::Brick, t(ResourceType::Brick));
    let e3 = entry_of(ResourceType::Sheep, t(ResourceType::Sheep));
    let e4 = entry_of(ResourceType::Wheat, t(ResourceType::Wheat));
    let e5 = entry_of(ResourceType::Ore, t(ResourceType::Ore));
    lemma_entry_sum(ResourceType::Wood, t(ResourceType::Wood), r);
    lemma_entry_sum(ResourceType::Brick, t(ResourceType::Brick), r);
    lemma_entry_sum(ResourceType::Sheep, t(ResourceType::Sheep), r);
    lemma_entry_sum(ResourceType::Wheat, t(ResourceType::Wheat), r);
    lemma_entry_sum(ResourceType::Ore, t(ResourceType::Ore), r);
    lemma_sum_concat(e1, e2, w);
    lemma_sum_concat(e1 + e2, e3, w);
    lemma_sum_concat(e1 + e2 + e3, e4, w);
    lemma_sum_concat(e1 + e2 + e3 + e4, e5, w);
    assert(sum_over(e1, w) == if ResourceType::Wood == r { t(ResourceType::Wood) } else { 0 });
    assert(sum_over(e2, w) == if ResourceType::Brick == r { t(ResourceType::Brick) } else { 0 });
    assert(sum_over(e3, w) == if ResourceType::Sheep == r { t(ResourceType::Sheep) } else { 0 });
    assert(sum_over(e4, w) == if ResourceType::Wheat == r { t(ResourceType::Wheat) } else { 0 });
    assert(sum_over(e5, w) == if ResourceType::Ore == r { t(ResourceType::Ore) } else { 0 });
    let l = listed(t);
    assert(l == e1 + e2 + e3 + e4 + e5);
    assert forall|i: int| 0 <= i < l.len() implies (#[trigger] l[i]).1 > 0 && l[i].0 != ResourceType::Desert by {
        let a4 = e1 + e2 + e3 + e4;
        let a3 = e1 + e2 + e3;
        let a2 = e1 + e2;
        if i >= a4.len() {
            assert(l[i] == e5[i - a4.len()]);
        } else {
            assert(l[i] == a4[i]);
            if i >= a3.len() {
                assert(a4[i] == e4[i - a3.len()]);
            } else {
                assert(a4[i] == a3[i]);
                if i >= a2.len() {
                    assert(a3[i] == e3[i - a2.len()]);
                } else {
                    assert(a3[i] == a2[i]);
                    if i >= e1.len() {
                        assert(a2[i] == e2[i - e1.len()]);
                    } else {
                        assert(a2[i] == e1[i]);
                    }
                }
            }
        }
    }
}

/// A summary line written from totals that fit in 32 bits reads back as
/// those totals, on both sides.
proof fn lemma_summary_reads(
    name: Seq<char>,
    tg: spec_fn(ResourceType) -> nat,
    tr: spec_fn(ResourceType) -> nat,
    r: ResourceType,
)
    requires
        forall|q: ResourceType| #[trigger] tg(q) <= u32::MAX,
        forall|q: ResourceType| #[trigger] tr(q) <= u32::MAX,
    ensures
        given(summary_line(name, listed(tg), listed(tr)), name, r) == if r == ResourceType::Desert {
            0
        } else {
            tg(r)
        },
        got(summary_line(name, listed(tg), listed(tr)), name, r) == if r == ResourceType::Desert {
            0
        } else {
            tr(r)
        },
{
    let lg = listed(tg);
    let lr = listed(tr);
    lemma_listed_sum(tg, r);
    lemma_listed_sum(tr, r);
    let kp = |e: (ResourceType, u32)| e.1 > 0;
    lemma_keep_all(lg, kp);
    lemma_keep_all(lr, kp);
    assert(shown(lg) == lg);
    assert(shown(lr) == lr);
    lemma_side_reads(lg, r);
    lemma_side_reads(lr, r);
    assert(sum_over(shown(lg), amount_weight(r)) == sum_over(lg, amount_weight(r)));
    let a = amounts_text(lg);
    let b = amounts_text(lr);
    let line = summary_line(name, lg, lr);
    let p = trade_prefix(name);
    reveal_strlit(" for ");
    assert(line =~= p + (a + for_sep() + b));
    assert(line.take(p.len() as int) =~= p);
    let rest = line.skip(p.len() as int);
    assert(rest =~= a + for_sep() + b);
    lemma_find_for(a, b, 0);
    assert(rest.take(a.len() as int) =~= a);
    assert(rest.skip((a.len() + for_sep().len()) as int) =~= b);
    assert(parse_line(line, name) == Some((a, b)));
}

/// Merging two trade lines of a player keeps every total: the merged line
/// reads back, for each resource and on each side, as the sum of what the
/// two lines read as.
pub proof fn law_merged_line_reads_back(existing: Seq<char>, incoming: Seq<char>, name: Seq<char>, r: ResourceType)
    requires
        merge_fits(existing, incoming, name),
    ensures
        given(merged_line(existing, incoming, name), name, r) == given(existing, name, r) + given(incoming, name, r),
        got(merged_line(existing, incoming, name), name, r) == got(existing, name, r) + got(incoming, name, r),
{
    let tg = |q: ResourceType| given(existing, name, q) + given(incoming, name, q);
    let tr = |q: ResourceType| got(existing, name, q) + got(incoming, name, q);
    assert forall|q: ResourceType| #[trigger] tg(q) <= u32::MAX by {
        assert(given(existing, name, q) + given(incoming, name, q) <= u32::MAX);
    }
    assert forall|q: ResourceType| #[trigger] tr(q) <= u32::MAX by {
        assert(given(existing, name, q) + given(incoming, name, q) <= u32::MAX);
    }
    lemma_summary_reads(name, tg, tr, r);
    lemma_no_desert_total(existing, incoming, name);
}


/// Merging two trade lines does not depend on their order: the same line
/// comes out either way, and either order fits in 32 bits when the other
/// does.
pub proof fn law_merge_is_symmetric(a: Seq<char>, b: Seq<char>, name: Seq<char>)
    ensures
        merged_line(a, b, name) == merged_line(b, a, name),
        merge_fits(a, b, name) == merge_fits(b, a, name),
{
    let g1 = |q: ResourceType| given(a, name, q) + given(b, name, q);
    let g2 = |q: ResourceType| given(b, name, q) + given(a, name, q);
    let r1 = |q: ResourceType| got(a, name, q) + got(b, name, q);
    let r2 = |q: ResourceType| got(b, name, q) + got(a, name, q);
    assert(g1 =~= g2);
    assert(r1 =~= r2);
    assert(merge_fits(a, b, name) == merge_fits(b, a, name)) by {
        if merge_fits(a, b, name) {
            assert forall|r: ResourceType| #[trigger] given(b, name, r) + given(a, name, r) <= u32::MAX && got(b, name, r)
                + got(a, name, r) <= u32::MAX by {
                assert(given(a, name, r) + given(b, name, r) <= u32::MAX);
            }
        }
        if merge_fits(b, a, name) {
            assert forall|r: ResourceType| #[trigger] given(a, name, r) + given(b, name, r) <= u32::MAX && got(a, name, r)
                + got(b, name, r) <= u32::MAX by {
                assert(given(b, name, r) + given(a, name, r) <= u32::MAX);
            }
        }
    }
}

} // verus!
