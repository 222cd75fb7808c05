//! How a line of the game log is laid out for display: the player it begins
//! with in their colour, resource names shown as card icons, building and
//! card names as their artwork, and the rest as text.

use vstd::prelude::*;
use crate::banklog::{
    ascii_lower, chars_of, find_from, first_space, is_space, lower_eq, space_char, to_lower, trim,
    trim_front, trim_range,
};
use crate::rules::{PlayerInfo, ResourceType, colour_hex};
use crate::banklog::{range_texts, string_of_range, number_of, parse_number, occurs_at, find_range};
use crate::text::push_char;

verus! {

/// Whether `char::is_alphanumeric` holds of a character: whether Unicode
/// counts it alphabetic or numeric.
pub uninterp spec fn alphanumeric(c: char) -> bool;

/// Whether a character is a letter or a number, through
/// `char::is_alphanumeric`. Within ASCII these are the letters and the
/// digits; beyond it the answer comes from Unicode's tables, which this
/// contract names and does not spell out.
#[verifier::external_body]
fn is_alnum(c: char) -> (b: bool)
    ensures
        b == alphanumeric(c),
        (c as u32) < 128 ==> (b <==> ('a' <= c <= 'z' || 'A' <= c <= 'Z' || '0' <= c <= '9')),
{
    c.is_alphanumeric()
}

/// A character cut from the ends of a word: one that is neither a letter,
/// a number nor a hyphen.
pub open spec fn edge_char(c: char) -> bool {
    !alphanumeric(c) && c != '-'
}

/// `s` without the edge characters it begins with.
pub open spec fn strip_front(s: Seq<char>) -> Seq<char>
    decreases s.len(),
{
    if s.len() > 0 && edge_char(s[0]) {
        strip_front(s.drop_first())
    } else {
        s
    }
}

/// `s` without the edge characters it ends with.
pub open spec fn strip_back(s: Seq<char>) -> Seq<char>
    decreases s.len(),
{
    if s.len() > 0 && edge_char(s.last()) {
        strip_back(s.drop_last())
    } else {
        s
    }
}

/// A word with its punctuation cut from both ends.
pub open spec fn strip_edges(s: Seq<char>) -> Seq<char> {
    strip_back(strip_front(s))
}

/// Whether a character is cut from the ends of a word.
fn is_edge(c: char) -> (b: bool)
    ensures
        b == edge_char(c),
{
    !is_alnum(c) && c != '-'
}

/// The bounds of `v[lo..hi]` with punctuation cut from both ends.
pub fn strip_range(v: &Vec<char>, lo: usize, hi: usize) -> (r: (usize, usize))
    requires
        lo <= hi <= v@.len(),
    ensures
        lo <= r.0 <= r.1 <= hi,
        v@.subrange(r.0 as int, r.1 as int) == strip_edges(v@.subrange(lo as int, hi as int)),
{
    let mut a = lo;
    while a < hi && is_edge(v[a])
        invariant
            lo <= a <= hi <= v@.len(),
            strip_front(v@.subrange(lo as int, hi as int)) == strip_front(v@.subrange(a as int, hi as int)),
        decreases hi - a,
    {
        proof {
            assert(v@.subrange(a as int, hi as int).drop_first() =~= v@.subrange(a + 1, hi as int));
        }
        a = a + 1;
    }
    let mut b = hi;
    while b > a && is_edge(v[b - 1])
        invariant
            lo <= a <= b <= hi <= v@.len(),
            strip_front(v@.subrange(lo as int, hi as int)) == v@.subrange(a as int, hi as int),
            strip_back(v@.subrange(a as int, hi as int)) == strip_back(v@.subrange(a as int, b as int)),
        decreases b - a,
    {
        proof {
            assert(v@.subrange(a as int, b as int).drop_last() =~= v@.subrange(a as int, b - 1));
        }
        b = b - 1;
    }
    (a, b)
}

/// The resource a lower-case word names, read as in the log: a plural `s`
/// dropped, and lumber for wood.
pub open spec fn noun_resource(w: Seq<char>) -> Option<ResourceType> {
    let n = if w.len() > 0 && w.last() == 's' {
        w.drop_last()
    } else {
        w
    };
    if n == seq!['w', 'o', 'o', 'd'] || n == seq!['l', 'u', 'm', 'b', 'e', 'r'] {
        Some(ResourceType::Wood)
    } else if n == seq!['b', 'r', 'i', 'c', 'k'] {
        Some(ResourceType::Brick)
    } else if n == seq!['s', 'h', 'e', 'e', 'p'] {
        Some(ResourceType::Sheep)
    } else if n == seq!['w', 'h', 'e', 'a', 't'] {
        Some(ResourceType::Wheat)
    } else if n == seq!['o', 'r', 'e'] {
        Some(ResourceType::Ore)
    } else {
        None
    }
}

/// The resource a word of the log names, if any: its punctuation cut, read
/// without regard to ASCII case.
pub open spec fn token_resource(token: Seq<char>) -> Option<ResourceType> {
    noun_resource(ascii_lower(strip_edges(token)))
}

/// The resource `v[lo..hi]` names as a word of the log.
pub fn range_resource(v: &Vec<char>, lo: usize, hi: usize) -> (r: Option<ResourceType>)
    requires
        lo <= hi <= v@.len(),
    ensures
        r == token_resource(v@.subrange(lo as int, hi as int)),
{
    let (a, b0) = strip_range(v, lo, hi);
    let ghost w = ascii_lower(v@.subrange(a as int, b0 as int));
    let b = if a < b0 && to_lower(v[b0 - 1]) == 's' {
        b0 - 1
    } else {
        b0
    };
    proof {
        if a < b0 {
            assert(w.last() == crate::banklog::lower_char(v@[b0 - 1]));
        }
        let n = if w.len() > 0 && w.last() == 's' {
            w.drop_last()
        } else {
            w
        };
        assert(n =~= ascii_lower(v@.subrange(a as int, b as int)));
    }
    if lower_eq(v, a, b, &['w', 'o', 'o', 'd']) || lower_eq(v, a, b, &['l', 'u', 'm', 'b', 'e', 'r']) {
        Some(ResourceType::Wood)
    } else if lower_eq(v, a, b, &['b', 'r', 'i', 'c', 'k']) {
        Some(ResourceType::Brick)
    } else if lower_eq(v, a, b, &['s', 'h', 'e', 'e', 'p']) {
        Some(ResourceType::Sheep)
    } else if lower_eq(v, a, b, &['w', 'h', 'e', 'a', 't']) {
        Some(ResourceType::Wheat)
    } else if lower_eq(v, a, b, &['o', 'r', 'e']) {
        Some(ResourceType::Ore)
    } else {
        None
    }
}

/// The resource a word of the log names, if any.
pub fn parse_resource_token(token: &str) -> (r: Option<ResourceType>)
    ensures
        r == token_resource(token@),
{
    let v = chars_of(token);
    proof {
        assert(v@.subrange(0, v@.len() as int) =~= v@);
    }
    range_resource(&v, 0, v.len())
}

/// The artwork a lower-case word of the log stands for, if any: a piece,
/// the development card, or one of the development cards.
pub open spec fn word_icon(w: Seq<char>) -> Option<Seq<char>> {
    if w == seq!['r', 'o', 'a', 'd'] {
        Some("build-road"@)
    } else if w == seq!['s', 'e', 't', 't', 'l', 'e', 'm', 'e', 'n', 't'] {
        Some("build-settlement"@)
    } else if w == seq!['c', 'i', 't', 'y'] {
        Some("build-city"@)
    } else if w == seq!['d', 'e', 'v', 'e', 'l', 'o', 'p', 'm', 'e', 'n', 't'] || w == seq![
        'd', 'e', 'v', 'e', 'l', 'o', 'p', 'm', 'e', 'n', 't', '-', 'c', 'a', 'r', 'd',
    ] {
        Some("build-dev-card"@)
    } else if w == seq!['k', 'n', 'i', 'g', 'h', 't'] {
        Some("dev-knight"@)
    } else if w == seq!['y', 'e', 'a', 'r'] || w == seq![
        'y', 'e', 'a', 'r', '-', 'o', 'f', '-', 'p', 'l', 'e', 'n', 't', 'y',
    ] {
        Some("dev-plenty"@)
    } else if w == seq!['m', 'o', 'n', 'o', 'p', 'o', 'l', 'y'] {
        Some("dev-monopoly"@)
    } else if w == seq!['r', 'o', 'a', 'd', '-', 'b', 'u', 'i', 'l', 'd', 'i', 'n', 'g'] {
        Some("dev-road"@)
    } else if w == seq!['v', 'i', 'c', 't', 'o', 'r', 'y'] || w == seq![
        'v', 'i', 'c', 't', 'o', 'r', 'y', '-', 'p', 'o', 'i', 'n', 't',
    ] {
        Some("dev-victory"@)
    } else {
        None
    }
}

/// The artwork a word of the log stands for: the word trimmed and read
/// without regard to ASCII case.
pub open spec fn build_icon(label: Seq<char>) -> Option<Seq<char>> {
    word_icon(ascii_lower(trim(label)))
}

/// The artwork `v[lo..hi]` stands for as a word of the log.
pub fn range_icon(v: &Vec<char>, lo: usize, hi: usize) -> (r: Option<&'static str>)
    requires
        lo <= hi <= v@.len(),
    ensures
        match r {
            Some(a) => build_icon(v@.subrange(lo as int, hi as int)) == Some(a@),
            None => build_icon(v@.subrange(lo as int, hi as int)) is None,
        },
{
    let (a, b) = trim_range(v, lo, hi);
    if lower_eq(v, a, b, &['r', 'o', 'a', 'd']) {
        Some("build-road")
    } else if lower_eq(v, a, b, &['s', 'e', 't', 't', 'l', 'e', 'm', 'e', 'n', 't']) {
        Some("build-settlement")
    } else if lower_eq(v, a, b, &['c', 'i', 't', 'y']) {
        Some("build-city")
    } else if lower_eq(v, a, b, &['d', 'e', 'v', 'e', 'l', 'o', 'p', 'm', 'e', 'n', 't']) || lower_eq(
        v,
        a,
        b,
        &['d', 'e', 'v', 'e', 'l', 'o', 'p', 'm', 'e', 'n', 't', '-', 'c', 'a', 'r', 'd'],
    ) {
        Some("build-dev-card")
    } else if lower_eq(v, a, b, &['k', 'n', 'i', 'g', 'h', 't']) {
        Some("dev-knight")
    } else if lower_eq(v, a, b, &['y', 'e', 'a', 'r']) || lower_eq(
        v,
        a,
        b,
        &['y', 'e', 'a', 'r', '-', 'o', 'f', '-', 'p', 'l', 'e', 'n', 't', 'y'],
    ) {
        Some("dev-plenty")
    } else if lower_eq(v, a, b, &['m', 'o', 'n', 'o', 'p', 'o', 'l', 'y']) {
        Some("dev-monopoly")
    } else if lower_eq(v, a, b, &['r', 'o', 'a', 'd', '-', 'b', 'u', 'i', 'l', 'd', 'i', 'n', 'g']) {
        Some("dev-road")
    } else if lower_eq(v, a, b, &['v', 'i', 'c', 't', 'o', 'r', 'y']) || lower_eq(
        v,
        a,
        b,
        &['v', 'i', 'c', 't', 'o', 'r', 'y', '-', 'p', 'o', 'i', 'n', 't'],
    ) {
        Some("dev-victory")
    } else {
        None
    }
}

/// The artwork a word of the log stands for, if any.
pub fn log_build_icon(label: &str) -> (r: Option<&'static str>)
    ensures
        match r {
            Some(a) => build_icon(label@) == Some(a@),
            None => build_icon(label@) is None,
        },
{
    let v = chars_of(label);
    proof {
        assert(v@.subrange(0, v@.len() as int) =~= v@);
    }
    range_icon(&v, 0, v.len())
}

/// Trimming the front never lengthens.
pub proof fn lemma_trim_front_len(s: Seq<char>)
    ensures
        trim_front(s).len() <= s.len(),
        trim_front(s).len() > 0 ==> !space_char(trim_front(s)[0]),
        trim_front(s) == s.skip(s.len() - trim_front(s).len()),
    decreases s.len(),
{
    if s.len() > 0 && space_char(s[0]) {
        lemma_trim_front_len(s.drop_first());
        assert(s.drop_first().skip(s.drop_first().len() - trim_front(s).len()) =~= s.skip(
            s.len() - trim_front(s).len(),
        ));
    } else {
        assert(s.skip(0) =~= s);
    }
}

/// The first white space at or after `i` stands between `i` and the end.
pub proof fn lemma_first_space(t: Seq<char>, i: int)
    requires
        0 <= i <= t.len(),
    ensures
        i <= first_space(t, i) <= t.len(),
        first_space(t, i) < t.len() ==> space_char(t[first_space(t, i)]),
        forall|k: int| i <= k < first_space(t, i) ==> !space_char(#[trigger] t[k]),
    decreases t.len() - i,
{
    if i < t.len() && !space_char(t[i]) {
        lemma_first_space(t, i + 1);
    }
}

/// The words of `s`: its runs of characters that are not white space.
pub open spec fn words(s: Seq<char>) -> Seq<Seq<char>>
    decreases s.len(),
{
    let t = trim_front(s);
    if t.len() == 0 {
        seq![]
    } else {
        proof {
            lemma_trim_front_len(s);
            lemma_first_space(t, 0);
            if first_space(t, 0) == 0 {
                assert(!space_char(t[0]));
            }
        }
        seq![t.take(first_space(t, 0))] + words(t.skip(first_space(t, 0)))
    }
}

/// The ranges of the words of `v[lo..hi]`.
pub fn word_ranges(v: &Vec<char>, lo: usize, hi: usize) -> (rs: Vec<(usize, usize)>)
    requires
        lo <= hi <= v@.len(),
    ensures
        crate::banklog::range_texts(v@, rs@) == words(v@.subrange(lo as int, hi as int)),
        forall|k: int| 0 <= k < rs@.len() ==> lo <= (#[trigger] rs@[k]).0 <= rs@[k].1 <= hi,
{
    let mut rs: Vec<(usize, usize)> = Vec::new();
    let mut i = lo;
    while i < hi
        invariant
            lo <= i <= hi <= v@.len(),
            crate::banklog::range_texts(v@, rs@) + words(v@.subrange(i as int, hi as int)) == words(
                v@.subrange(lo as int, hi as int),
            ),
            forall|k: int| 0 <= k < rs@.len() ==> lo <= (#[trigger] rs@[k]).0 <= rs@[k].1 <= hi,
        decreases hi - i,
    {
        if is_space(v[i]) {
            proof {
                assert(v@.subrange(i as int, hi as int).drop_first() =~= v@.subrange(i + 1, hi as int));
                assert(trim_front(v@.subrange(i as int, hi as int)) == trim_front(v@.subrange(i + 1, hi as int)));
            }
            i = i + 1;
        } else {
            let mut j = i + 1;
            let ghost t = v@.subrange(i as int, hi as int);
            proof {
                assert(trim_front(t) == t);
            }
            while j < hi && !is_space(v[j])
                invariant
                    lo <= i < j <= hi <= v@.len(),
                    t == v@.subrange(i as int, hi as int),
                    first_space(t, 1) == first_space(t, j - i),
                decreases hi - j,
            {
                proof {
                    assert(t[j - i] == v@[j as int]);
                }
                j = j + 1;
            }
            proof {
                if j < hi {
                    assert(t[j - i] == v@[j as int]);
                }
                assert(t[0] == v@[i as int]);
                assert(first_space(t, 0) == first_space(t, 1));
                assert(first_space(t, 0) == j - i);
                assert(t.take(j - i) =~= v@.subrange(i as int, j as int));
                assert(t.skip(j - i) =~= v@.subrange(j as int, hi as int));
            }
            let ghost before = crate::banklog::range_texts(v@, rs@);
            rs.push((i, j));
            proof {
                assert(crate::banklog::range_texts(v@, rs@) =~= before.push(v@.subrange(i as int, j as int)));
                assert(crate::banklog::range_texts(v@, rs@) + words(v@.subrange(j as int, hi as int)) =~= before
                    + words(t));
            }
            i = j;
        }
    }
    proof {
        assert(trim_front(v@.subrange(i as int, hi as int)).len() == 0);
    }
    rs
}

/// A piece of a log line as it is shown.
pub enum Piece {
    /// The player the line begins with, and the colour their name is shown in.
    Speaker(Seq<char>, Seq<char>),
    Text(Seq<char>),
    Count(nat),
    /// A resource, shown as its card.
    Resource(ResourceType),
    /// Artwork by name.
    Art(Seq<char>),
    /// A picture by asset name.
    Picture(Seq<char>),
    /// Artwork by name, tinted in a colour.
    Tinted(Seq<char>, Seq<char>),
}

/// A piece of a log line as it is shown.
#[derive(Clone, Debug, PartialEq, Eq)]
pub enum LogPiece {
    /// The player the line begins with, and the colour their name is shown in.
    Speaker { name: String, colour: &'static str },
    Text(String),
    Count(usize),
    /// A resource, shown as its card.
    Resource(ResourceType),
    /// Artwork by name.
    Art(&'static str),
    /// A picture by asset name.
    Picture(String),
    /// Artwork by name, tinted in a colour.
    Tinted { icon: &'static str, colour: &'static str },
}

impl View for LogPiece {
    type V = Piece;

    open spec fn view(&self) -> Piece {
        match self {
            LogPiece::Speaker { name, colour } => Piece::Speaker(name@, colour@),
            LogPiece::Text(t) => Piece::Text(t@),
            LogPiece::Count(n) => Piece::Count(*n as nat),
            LogPiece::Resource(r) => Piece::Resource(*r),
            LogPiece::Art(a) => Piece::Art(a@),
            LogPiece::Picture(a) => Piece::Picture(a@),
            LogPiece::Tinted { icon, colour } => Piece::Tinted(icon@, colour@),
        }
    }
}

/// The pieces a list of shown pieces stands for.
pub open spec fn pieces(v: Seq<LogPiece>) -> Seq<Piece> {
    v.map_values(|p: LogPiece| p@)
}

/// The pieces so far, with the text waiting to be shown added as one piece.
pub open spec fn flush(ps: Seq<Piece>, pending: Seq<char>) -> Seq<Piece> {
    if pending.len() == 0 {
        ps
    } else {
        ps.push(Piece::Text(pending))
    }
}

/// Laying out words one by one: the pieces shown so far and the plain text
/// that waits to be shown. A word naming a resource becomes its card, one
/// naming a piece or card its artwork; other words gather into text, one
/// space apart.
pub open spec fn token_state(ws: Seq<Seq<char>>) -> (Seq<Piece>, Seq<char>)
    decreases ws.len(),
{
    if ws.len() == 0 {
        (seq![], seq![])
    } else {
        let (ps, pending) = token_state(ws.drop_last());
        let w = ws.last();
        let c = strip_edges(w);
        match token_resource(c) {
            Some(r) => (flush(ps, pending).push(Piece::Resource(r)), seq![]),
            None => match build_icon(c) {
                Some(a) => (flush(ps, pending).push(Piece::Art(a)), seq![]),
                None => (ps, if pending.len() == 0 {
                    w
                } else {
                    pending + seq![' '] + w
                }),
            },
        }
    }
}

/// The pieces a line of plain words is shown as.
pub open spec fn message_pieces(text: Seq<char>) -> Seq<Piece> {
    flush(token_state(words(text)).0, token_state(words(text)).1)
}

/// Appends the text of `v[lo..hi]`.
fn push_range(s: &mut String, v: &Vec<char>, lo: usize, hi: usize)
    requires
        lo <= hi <= v@.len(),
    ensures
        final(s)@ == old(s)@ + v@.subrange(lo as int, hi as int),
{
    let mut j = lo;
    while j < hi
        invariant
            lo <= j <= hi <= v@.len(),
            s@ == old(s)@ + v@.subrange(lo as int, j as int),
        decreases hi - j,
    {
        push_char(s, v[j]);
        j = j + 1;
        proof {
            assert(s@ =~= old(s)@ + v@.subrange(lo as int, j as int));
        }
    }
}

/// Appends a piece to a laid-out line.
fn push_piece(out: &mut Vec<LogPiece>, p: LogPiece)
    ensures
        pieces(final(out)@) == pieces(old(out)@).push(p@),
{
    out.push(p);
    proof {
        assert(pieces(out@) =~= pieces(old(out)@).push(p@));
    }
}

/// Appends the pieces the words of `v[lo..hi]` are shown as.
fn push_message_pieces(out: &mut Vec<LogPiece>, v: &Vec<char>, lo: usize, hi: usize)
    requires
        lo <= hi <= v@.len(),
    ensures
        pieces(final(out)@) == pieces(old(out)@) + message_pieces(v@.subrange(lo as int, hi as int)),
{
    let ws = word_ranges(v, lo, hi);
    let ghost wt = range_texts(v@, ws@);
    let mut pending = String::new();
    let mut waiting = false;
    let mut i: usize = 0;
    proof {
        assert(wt.take(0) =~= Seq::<Seq<char>>::empty());
        assert(pieces(out@) =~= pieces(old(out)@) + token_state(wt.take(0)).0);
    }
    while i < ws.len()
        invariant
            lo <= hi <= v@.len(),
            wt == range_texts(v@, ws@),
            wt == words(v@.subrange(lo as int, hi as int)),
            forall|k: int| 0 <= k < ws@.len() ==> lo <= (#[trigger] ws@[k]).0 <= ws@[k].1 <= hi,
            i <= ws@.len(),
            pieces(out@) == pieces(old(out)@) + token_state(wt.take(i as int)).0,
            pending@ == token_state(wt.take(i as int)).1,
            waiting == (pending@.len() > 0),
        decreases ws@.len() - i,
    {
        let (a, b) = ws[i];
        let ghost w = v@.subrange(a as int, b as int);
        proof {
            assert(wt[i as int] == w);
            assert(wt.take(i + 1).drop_last() =~= wt.take(i as int));
            assert(wt.take(i + 1).last() == w);
        }
        let (c, d) = strip_range(v, a, b);
        let res = range_resource(v, c, d);
        match res {
            Some(r) => {
                if waiting {
                    push_piece(out, LogPiece::Text(pending));
                } else {
                    proof {
                        assert(pending@.len() == 0);
                    }
                }
                push_piece(out, LogPiece::Resource(r));
                pending = String::new();
                waiting = false;
            },
            None => {
                match range_icon(v, c, d) {
                    Some(art) => {
                        if waiting {
                            push_piece(out, LogPiece::Text(pending));
                        } else {
                            proof {
                                assert(pending@.len() == 0);
                            }
                        }
                        push_piece(out, LogPiece::Art(art));
                        pending = String::new();
                        waiting = false;
                    },
                    None => {
                        if waiting {
                            push_char(&mut pending, ' ');
                        } else {
                            proof {
                                assert(pending@.len() == 0);
                            }
                        }
                        push_range(&mut pending, v, a, b);
                        waiting = waiting || a < b;
                        proof {
                            if !waiting {
                                assert(pending@.len() == 0);
                            }
                        }
                    },
                }
            },
        }
        proof {
            assert(pieces(out@) =~= pieces(old(out)@) + token_state(wt.take(i + 1)).0);
        }
        i = i + 1;
    }
    proof {
        assert(wt.take(ws@.len() as int) =~= wt);
    }
    if waiting {
        push_piece(out, LogPiece::Text(pending));
    } else {
        proof {
            assert(pending@.len() == 0);
        }
    }
}

/// The pieces a line of plain words is shown as.
pub fn render_message_tokens(text: &str) -> (out: Vec<LogPiece>)
    ensures
        pieces(out@) == message_pieces(text@),
{
    let v = chars_of(text);
    let mut out: Vec<LogPiece> = Vec::new();
    proof {
        assert(v@.subrange(0, v@.len() as int) =~= v@);
        assert(pieces(out@) =~= Seq::<Piece>::empty());
    }
    push_message_pieces(&mut out, &v, 0, v.len());
    proof {
        assert(Seq::<Piece>::empty() + message_pieces(text@) =~= message_pieces(text@));
    }
    out
}

/// Whether `p` occurs in `s`.
pub open spec fn contains(s: Seq<char>, p: Seq<char>) -> bool {
    find_from(s, p, 0) is Some
}

/// The first word of `s`, or `s` itself when it holds none.
pub open spec fn first_word_or(s: Seq<char>) -> Seq<char> {
    if words(s).len() > 0 {
        words(s)[0]
    } else {
        s
    }
}

/// Whether artwork is drawn in the player's colour: everything but the
/// development cards is.
pub open spec fn icon_tinted(icon: Seq<char>) -> bool {
    !(4 <= icon.len() && icon.take(4) == seq!['d', 'e', 'v', '-']) && icon != seq![
        'b', 'u', 'i', 'l', 'd', '-', 'd', 'e', 'v', '-', 'c', 'a', 'r', 'd',
    ]
}

/// What a phrase that begins with `prefix` shows: `label` in place of the
/// prefix, then the artwork of the card or piece it names, and whether that
/// artwork takes the player's colour.
pub open spec fn action_for(phrase: Seq<char>, prefix: Seq<char>, label: Seq<char>) -> Option<
    (Seq<char>, Seq<char>, bool),
> {
    if prefix.len() <= phrase.len() && phrase.take(prefix.len() as int) == prefix {
        let rest = phrase.skip(prefix.len() as int);
        let lower = ascii_lower(rest);
        if contains(lower, seq!['r', 'o', 'a', 'd', ' ', 'b', 'u', 'i', 'l', 'd', 'i', 'n', 'g']) {
            Some((label, "dev-road"@, false))
        } else if contains(lower, seq!['y', 'e', 'a', 'r', ' ', 'o', 'f', ' ', 'p', 'l', 'e', 'n', 't', 'y']) {
            Some((label, "dev-plenty"@, false))
        } else if contains(lower, seq!['m', 'o', 'n', 'o', 'p', 'o', 'l', 'y']) {
            Some((label, "dev-monopoly"@, false))
        } else if contains(lower, seq!['k', 'n', 'i', 'g', 'h', 't']) {
            Some((label, "dev-knight"@, false))
        } else {
            match build_icon(strip_edges(first_word_or(rest))) {
                Some(icon) => Some((label, icon, icon_tinted(icon))),
                None => if contains(rest, seq!['d', 'e', 'v', 'e', 'l', 'o', 'p', 'm', 'e', 'n', 't']) {
                    Some((label, "build-dev-card"@, false))
                } else {
                    None
                },
            }
        }
    } else {
        None
    }
}

/// The artwork that stands in a player's action in the log: what they
/// built, bought, played or used, or the robber they moved.
pub open spec fn action_icon(text: Seq<char>) -> Option<(Seq<char>, Seq<char>, bool)> {
    let phrase = trim(text);
    match action_for(phrase, "built a "@, " built a "@) {
        Some(x) => Some(x),
        None => match action_for(phrase, "bought a "@, " bought a "@) {
            Some(x) => Some(x),
            None => match action_for(phrase, "played a "@, " played a "@) {
                Some(x) => Some(x),
                None => match action_for(phrase, "used a "@, " used a "@) {
                    Some(x) => Some(x),
                    None => if contains(
                        phrase,
                        seq!['m', 'o', 'v', 'e', 'd', ' ', 't', 'h', 'e', ' ', 'r', 'o', 'b', 'b', 'e', 'r'],
                    ) {
                        Some((" moved the robber"@, "robber"@, false))
                    } else {
                        None
                    },
                },
            },
        },
    }
}

/// Whether `v[lo..hi]`, read in lower case, holds `p`.
fn lower_contains(v: &Vec<char>, lo: usize, hi: usize, p: &[char]) -> (b: bool)
    requires
        lo <= hi <= v@.len(),
    ensures
        b == contains(ascii_lower(v@.subrange(lo as int, hi as int)), p@),
{
    let mut w: Vec<char> = Vec::new();
    let mut j = lo;
    while j < hi
        invariant
            lo <= j <= hi <= v@.len(),
            w@ == ascii_lower(v@.subrange(lo as int, j as int)),
        decreases hi - j,
    {
        w.push(to_lower(v[j]));
        j = j + 1;
        proof {
            assert(w@ =~= ascii_lower(v@.subrange(lo as int, j as int)));
        }
    }
    proof {
        assert(w@.subrange(0, w@.len() as int) =~= w@);
    }
    find_range(&w, 0, w.len(), p).is_some()
}

/// Whether `v[lo..hi]` holds `p`.
fn range_contains(v: &Vec<char>, lo: usize, hi: usize, p: &[char]) -> (b: bool)
    requires
        lo <= hi <= v@.len(),
    ensures
        b == contains(v@.subrange(lo as int, hi as int), p@),
{
    find_range(v, lo, hi, p).is_some()
}

/// Whether a name of artwork is drawn in the player's colour.
fn tinted(icon: &str) -> (b: bool)
    ensures
        b == icon_tinted(icon@),
{
    let v = chars_of(icon);
    let dev = v.len() >= 4 && occurs_at(&v, 0, &['d', 'e', 'v', '-']);
    let card = v.len() == 14 && occurs_at(&v, 0, &['b', 'u', 'i', 'l', 'd', '-', 'd', 'e', 'v', '-', 'c', 'a', 'r', 'd']);
    proof {
        if v@.len() >= 4 {
            assert(v@.subrange(0, 4) =~= v@.take(4));
        }
        if v@.len() == 14 {
            assert(v@.subrange(0, 14) =~= v@);
        }
    }
    !dev && !card
}

/// What `phrase` (the text `v[lo..hi]`) shows when it begins with `prefix`.
fn action_range(v: &Vec<char>, lo: usize, hi: usize, prefix: &str, label: &'static str) -> (r: Option<
    (&'static str, &'static str, bool),
>)
    requires
        lo <= hi <= v@.len(),
    ensures
        match r {
            Some((l, i, t)) => action_for(v@.subrange(lo as int, hi as int), prefix@, label@) == Some(
                (l@, i@, t),
            ),
            None => action_for(v@.subrange(lo as int, hi as int), prefix@, label@) is None,
        },
{
    let ghost phrase = v@.subrange(lo as int, hi as int);
    let p = chars_of(prefix);
    if p.len() > hi - lo || !occurs_at(v, lo, p.as_slice()) {
        proof {
            if p@.len() <= hi - lo {
                assert(phrase.take(p@.len() as int) =~= v@.subrange(lo as int, lo + p@.len()));
            }
        }
        return None;
    }
    let a = lo + p.len();
    let ghost rest = phrase.skip(p@.len() as int);
    proof {
        assert(phrase.take(p@.len() as int) =~= v@.subrange(lo as int, lo + p@.len()));
        assert(rest =~= v@.subrange(a as int, hi as int));
    }
    if lower_contains(v, a, hi, &['r', 'o', 'a', 'd', ' ', 'b', 'u', 'i', 'l', 'd', 'i', 'n', 'g']) {
        return Some((label, "dev-road", false));
    }
    if lower_contains(v, a, hi, &['y', 'e', 'a', 'r', ' ', 'o', 'f', ' ', 'p', 'l', 'e', 'n', 't', 'y']) {
        return Some((label, "dev-plenty", false));
    }
    if lower_contains(v, a, hi, &['m', 'o', 'n', 'o', 'p', 'o', 'l', 'y']) {
        return Some((label, "dev-monopoly", false));
    }
    if lower_contains(v, a, hi, &['k', 'n', 'i', 'g', 'h', 't']) {
        return Some((label, "dev-knight", false));
    }
    let ws = word_ranges(v, a, hi);
    let (c, d) = if ws.len() > 0 {
        ws[0]
    } else {
        (a, hi)
    };
    proof {
        if ws@.len() > 0 {
            assert(range_texts(v@, ws@)[0] == v@.subrange(c as int, d as int));
        }
        assert(first_word_or(rest) == v@.subrange(c as int, d as int));
    }
    let (e, f) = strip_range(v, c, d);
    match range_icon(v, e, f) {
        Some(icon) => Some((label, icon, tinted(icon))),
        None => {
            if range_contains(v, a, hi, &['d', 'e', 'v', 'e', 'l', 'o', 'p', 'm', 'e', 'n', 't']) {
                Some((label, "build-dev-card", false))
            } else {
                None
            }
        },
    }
}

/// The artwork that stands in a player's action in the log, with the words
/// shown before it and whether it takes the player's colour.
pub fn log_event_icon_for_player_action(text: &str) -> (r: Option<(&'static str, &'static str, bool)>)
    ensures
        match r {
            Some((l, i, t)) => action_icon(text@) == Some((l@, i@, t)),
            None => action_icon(text@) is None,
        },
{
    let v = chars_of(text);
    let (lo, hi) = trim_range(&v, 0, v.len());
    proof {
        assert(v@.subrange(0, v@.len() as int) =~= text@);
    }
    match action_range(&v, lo, hi, "built a ", " built a ") {
        Some(x) => return Some(x),
        None => {},
    }
    match action_range(&v, lo, hi, "bought a ", " bought a ") {
        Some(x) => return Some(x),
        None => {},
    }
    match action_range(&v, lo, hi, "played a ", " played a ") {
        Some(x) => return Some(x),
        None => {},
    }
    match action_range(&v, lo, hi, "used a ", " used a ") {
        Some(x) => return Some(x),
        None => {},
    }
    if range_contains(&v, lo, hi, &['m', 'o', 'v', 'e', 'd', ' ', 't', 'h', 'e', ' ', 'r', 'o', 'b', 'b', 'e', 'r']) {
        Some((" moved the robber", "robber", false))
    } else {
        None
    }
}

/// A count and the card it counts: the count is left out when it is zero.
pub open spec fn trade_pair(n: nat, r: ResourceType) -> Seq<Piece> {
    (if n > 0 {
        seq![Piece::Count(n)]
    } else {
        seq![]
    }) + seq![Piece::Resource(r)]
}

/// The words of a trade line laid out: `traded` and `for` as plain words, a
/// number followed by a resource as the count and its card, a lone resource
/// as one card, and any other word as text. A number takes the word after
/// it along, whether or not that word names a resource.
pub open spec fn sweep(ws: Seq<Seq<char>>) -> Seq<Piece>
    decreases ws.len(),
{
    if ws.len() == 0 {
        seq![]
    } else {
        let w = ws[0];
        if ascii_lower(w) == seq!['t', 'r', 'a', 'd', 'e', 'd'] {
            seq![Piece::Text(" traded "@)] + sweep(ws.drop_first())
        } else if ascii_lower(w) == seq!['f', 'o', 'r'] {
            seq![Piece::Text(" for "@)] + sweep(ws.drop_first())
        } else if number_of(w, usize::MAX as nat) is Some {
            if ws.len() > 1 && token_resource(ws[1]) is Some {
                trade_pair(number_of(w, usize::MAX as nat).unwrap(), token_resource(ws[1]).unwrap()) + sweep(
                    ws.skip(2),
                )
            } else {
                seq![Piece::Text(w)] + sweep(ws.skip(if ws.len() > 1 { 2 } else { 1 }))
            }
        } else if token_resource(w) is Some {
            trade_pair(1, token_resource(w).unwrap()) + sweep(ws.drop_first())
        } else {
            seq![Piece::Text(w)] + sweep(ws.drop_first())
        }
    }
}

/// The seat of the first player whose name the message begins with,
/// looking from seat `k` on.
pub open spec fn speaker_from(ps: Seq<PlayerInfo>, msg: Seq<char>, k: int) -> Option<int>
    decreases ps.len() - k,
{
    if k < 0 || k >= ps.len() {
        None
    } else if ps[k].name@.len() <= msg.len() && msg.take(ps[k].name@.len() as int) == ps[k].name@ {
        Some(k)
    } else {
        speaker_from(ps, msg, k + 1)
    }
}

/// The robber picture to show: the board's own when it names one.
pub open spec fn robber_picture(asset: Seq<char>) -> Seq<char> {
    if trim(asset).len() == 0 {
        "robber"@
    } else {
        trim(asset)
    }
}

/// How a log line is shown. A line that begins with a player's name shows
/// the name in their colour; what follows is a trade laid out as counts and
/// cards, an action with its artwork, or plain words. Any other line is
/// plain words.
pub open spec fn log_pieces(msg: Seq<char>, ps: Seq<PlayerInfo>, robber: Seq<char>) -> Seq<Piece> {
    match speaker_from(ps, msg, 0) {
        None => message_pieces(msg),
        Some(k) => {
            let name = ps[k].name@;
            let colour = colour_hex(ps[k].colour);
            let head = seq![Piece::Speaker(name, colour)];
            let remainder = trim_front(msg.skip(name.len() as int));
            if contains(ascii_lower(remainder), seq![' ', 't', 'r', 'a', 'd', 'e', 'd', ' ']) {
                head + sweep(words(remainder))
            } else {
                match action_icon(remainder) {
                    Some((prefix, icon, tint)) => head + seq![Piece::Text(prefix)] + if icon == "robber"@ {
                        seq![Piece::Picture(robber_picture(robber))]
                    } else if tint {
                        seq![Piece::Tinted(icon, colour)]
                    } else {
                        seq![Piece::Picture(icon)]
                    },
                    None => head + message_pieces(remainder),
                }
            }
        }
    }
}

/// Whether the text of `v[lo..hi]`, read in lower case, is `w`.
fn range_is_word(v: &Vec<char>, lo: usize, hi: usize, w: &[char]) -> (b: bool)
    requires
        lo <= hi <= v@.len(),
    ensures
        b == (ascii_lower(v@.subrange(lo as int, hi as int)) == w@),
{
    lower_eq(v, lo, hi, w)
}

/// Appends the pieces the words `ws[i..]` of a trade line are shown as.
fn push_sweep(out: &mut Vec<LogPiece>, v: &Vec<char>, ws: &Vec<(usize, usize)>)
    requires
        forall|k: int| 0 <= k < ws@.len() ==> (#[trigger] ws@[k]).0 <= ws@[k].1 <= v@.len(),
    ensures
        pieces(final(out)@) == pieces(old(out)@) + sweep(range_texts(v@, ws@)),
{
    let ghost wt = range_texts(v@, ws@);
    let mut i: usize = 0;
    proof {
        assert(wt.skip(0) =~= wt);
        assert(pieces(out@) =~= pieces(old(out)@));
    }
    while i < ws.len()
        invariant
            forall|k: int| 0 <= k < ws@.len() ==> (#[trigger] ws@[k]).0 <= ws@[k].1 <= v@.len(),
            wt == range_texts(v@, ws@),
            i <= ws@.len(),
            pieces(out@) + sweep(wt.skip(i as int)) == pieces(old(out)@) + sweep(wt),
        decreases ws@.len() - i,
    {
        let (a, b) = ws[i];
        let ghost rest = wt.skip(i as int);
        proof {
            assert(rest[0] == v@.subrange(a as int, b as int));
            assert(rest.drop_first() =~= wt.skip(i + 1));
        }
        if range_is_word(v, a, b, &['t', 'r', 'a', 'd', 'e', 'd']) {
            let t = String::from_str(" traded ");
            push_piece(out, LogPiece::Text(t));
            i = i + 1;
        } else if range_is_word(v, a, b, &['f', 'o', 'r']) {
            let t = String::from_str(" for ");
            push_piece(out, LogPiece::Text(t));
            i = i + 1;
        } else {
            match parse_number(v, a, b, usize::MAX as u64) {
                Some(n) => {
                    let mut paired = false;
                    if i + 1 < ws.len() {
                        let (c, d) = ws[i + 1];
                        proof {
                            assert(rest[1] == v@.subrange(c as int, d as int));
                            assert(rest.skip(2) =~= wt.skip(i + 2));
                        }
                        match range_resource(v, c, d) {
                            Some(r) => {
                                let ghost before = pieces(out@);
                                if n > 0 {
                                    push_piece(out, LogPiece::Count(n as usize));
                                }
                                push_piece(out, LogPiece::Resource(r));
                                proof {
                                    assert(pieces(out@) =~= before + trade_pair(n as nat, r));
                                }
                                paired = true;
                            },
                            None => {},
                        }
                    }
                    if !paired {
                        push_piece(out, LogPiece::Text(string_of_range(v, a, b)));
                    }
                    proof {
                        if i + 1 >= ws@.len() {
                            assert(rest.skip(1) =~= wt.skip(i + 1));
                        }
                    }
                    i = if i + 1 < ws.len() {
                        i + 2
                    } else {
                        i + 1
                    };
                },
                None => {
                    match range_resource(v, a, b) {
                        Some(r) => {
                            let ghost before = pieces(out@);
                            push_piece(out, LogPiece::Count(1));
                            push_piece(out, LogPiece::Resource(r));
                            proof {
                                assert(pieces(out@) =~= before + trade_pair(1, r));
                            }
                        },
                        None => {
                            push_piece(out, LogPiece::Text(string_of_range(v, a, b)));
                        },
                    }
                    i = i + 1;
                },
            }
        }
        proof {
            assert(pieces(out@) + sweep(wt.skip(i as int)) =~= pieces(old(out)@) + sweep(wt));
        }
    }
}

/// A seat found is a seat whose player's name the message begins with.
pub proof fn lemma_speaker_from(ps: Seq<PlayerInfo>, msg: Seq<char>, k: int)
    requires
        0 <= k,
    ensures
        speaker_from(ps, msg, k) matches Some(j) ==> k <= j < ps.len() && ps[j].name@.len() <= msg.len()
            && msg.take(ps[j].name@.len() as int) == ps[j].name@,
    decreases ps.len() - k,
{
    if k < ps.len() && !(ps[k].name@.len() <= msg.len() && msg.take(ps[k].name@.len() as int) == ps[k].name@) {
        lemma_speaker_from(ps, msg, k + 1);
    }
}

/// The seat of the first player whose name `v` begins with.
fn find_speaker(v: &Vec<char>, players: &Vec<PlayerInfo>) -> (r: Option<usize>)
    ensures
        match r {
            Some(k) => speaker_from(players@, v@, 0) == Some(k as int),
            None => speaker_from(players@, v@, 0) is None,
        },
{
    let mut k: usize = 0;
    while k < players.len()
        invariant
            k <= players@.len(),
            speaker_from(players@, v@, 0) == speaker_from(players@, v@, k as int),
        decreases players@.len() - k,
    {
        let name = chars_of(players[k].name.as_str());
        if crate::banklog::begins_with(v, &name) {
            return Some(k);
        }
        k = k + 1;
    }
    None
}

/// The robber picture to show: the board's own when it names one.
fn robber_asset_name(asset: &str) -> (s: String)
    ensures
        s@ == robber_picture(asset@),
{
    let t = crate::banklog::trimmed(asset);
    let v = chars_of(t.as_str());
    if v.len() == 0 {
        String::from_str("robber")
    } else {
        t
    }
}

/// How a log line is shown, given the roster and the board's robber picture.
pub fn render_log_message(msg: &str, players: &Vec<PlayerInfo>, robber_asset: &str) -> (out: Vec<LogPiece>)
    ensures
        pieces(out@) == log_pieces(msg@, players@, robber_asset@),
{
    let v = chars_of(msg);
    let mut out: Vec<LogPiece> = Vec::new();
    proof {
        assert(v@.subrange(0, v@.len() as int) =~= v@);
        assert(pieces(out@) =~= Seq::<Piece>::empty());
    }
    match find_speaker(&v, players) {
        None => {
            push_message_pieces(&mut out, &v, 0, v.len());
            proof {
                assert(Seq::<Piece>::empty() + message_pieces(msg@) =~= message_pieces(msg@));
            }
            out
        },
        Some(k) => {
            proof {
                lemma_speaker_from(players@, v@, 0);
            }
            let name = players[k].name.clone();
            let colour = players[k].colour.hex();
            let start = chars_of(name.as_str()).len();
            push_piece(&mut out, LogPiece::Speaker { name, colour });
            let a = crate::banklog::trim_front_index(&v, start, v.len());
            proof {
                assert(msg@.skip(start as int) =~= v@.subrange(start as int, v@.len() as int));
            }
            if lower_contains(&v, a, v.len(), &[' ', 't', 'r', 'a', 'd', 'e', 'd', ' ']) {
                let ws = word_ranges(&v, a, v.len());
                push_sweep(&mut out, &v, &ws);
                return out;
            }
            let rest = string_of_range(&v, a, v.len());
            match log_event_icon_for_player_action(rest.as_str()) {
                Some((prefix, icon, tint)) => {
                    push_piece(&mut out, LogPiece::Text(String::from_str(prefix)));
                    let iv = chars_of(icon);
                    let robber = iv.len() == 6 && occurs_at(&iv, 0, &['r', 'o', 'b', 'b', 'e', 'r']);
                    proof {
                        reveal_strlit("robber");
                        assert("robber"@ =~= seq!['r', 'o', 'b', 'b', 'e', 'r']);
                        if iv@.len() == 6 {
                            assert(iv@.subrange(0, 6) =~= iv@);
                        }
                        assert(robber == (icon@ == "robber"@));
                    }
                    if robber {
                        push_piece(&mut out, LogPiece::Picture(robber_asset_name(robber_asset)));
                    } else if tint {
                        push_piece(&mut out, LogPiece::Tinted { icon, colour });
                    } else {
                        push_piece(&mut out, LogPiece::Picture(String::from_str(icon)));
                    }
                    out
                },
                None => {
                    push_message_pieces(&mut out, &v, a, v.len());
                    out
                },
            }
        },
    }
}

/// A count and the card it counts, as pieces; a count of zero is left out.
pub fn render_trade_pair(count: usize, res: ResourceType) -> (out: Vec<LogPiece>)
    ensures
        pieces(out@) == trade_pair(count as nat, res),
{
    let mut out: Vec<LogPiece> = Vec::new();
    proof {
        assert(pieces(out@) =~= Seq::<Piece>::empty());
    }
    if count > 0 {
        push_piece(&mut out, LogPiece::Count(count));
    }
    push_piece(&mut out, LogPiece::Resource(res));
    proof {
        assert(pieces(out@) =~= trade_pair(count as nat, res));
    }
    out
}

} // verus!
