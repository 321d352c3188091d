//! What reading gives back of writing: data files read back as they were written, split text
//! joins back, and joined words split back.
use vstd::prelude::*;
use vstd::utf8::*;
use crate::data_manager::{binds_from, binds_in_file, binds_text, desktops_from, desktops_in_file, desktops_text, file_lines};
use crate::text::{
    byte_lines, is_space, joined, line_text, lines_at, nonempty, occurs_at, pieces, pieces_at,
    strip_cr, words, words_at, Spacing,
};

verus! {

/// The bytes of one character's UTF-8 encoding are a line feed or a carriage return only when
/// the character is one.
proof fn lemma_scalar_bytes(c: char)
    ensures
        encode_scalar(c as u32).len() >= 1,
        forall|i: int|
            0 <= i < encode_scalar(c as u32).len() && #[trigger] encode_scalar(c as u32)[i] == 10u8
                ==> c == '\n',
        encode_scalar(c as u32).last() == 13u8 ==> c == '\r',
{
    char_is_scalar(c);
    let u = c as u32;
    if has_width_1_encoding(u) {
        assert(u <= 0x7F ==> (u & 0x7F) as u8 == u as u8) by (bit_vector);
        if (u & 0x7F) as u8 == 10u8 {
            assert(u <= 0x7F && (u & 0x7F) as u8 == 10u8 ==> u == 10) by (bit_vector);
            char_u32_cast(c, u);
            assert(('\n' as u32) == 10);
            char_u32_cast('\n', 10);
        }
        if (u & 0x7F) as u8 == 13u8 {
            assert(u <= 0x7F && (u & 0x7F) as u8 == 13u8 ==> u == 13) by (bit_vector);
            char_u32_cast(c, u);
            assert(('\r' as u32) == 13);
            char_u32_cast('\r', 13);
        }
    } else {
        assert(forall|x: u32| #[trigger] (0x80u8 | (x & 0x3F) as u8) >= 0x80u8) by (bit_vector);
        assert(forall|x: u32| #[trigger] (0x80u8 | ((x >> 6) & 0x3F) as u8) >= 0x80u8) by (bit_vector);
        assert(forall|x: u32| #[trigger] (0x80u8 | ((x >> 12) & 0x3F) as u8) >= 0x80u8) by (bit_vector);
        assert(forall|x: u32| #[trigger] (0xC0u8 | ((x >> 6) & 0x1F) as u8) >= 0x80u8) by (bit_vector);
        assert(forall|x: u32| #[trigger] (0xE0u8 | ((x >> 12) & 0x0F) as u8) >= 0x80u8) by (bit_vector);
        assert(forall|x: u32| #[trigger] (0xF0u8 | ((x >> 18) & 0x7) as u8) >= 0x80u8) by (bit_vector);
        let e = encode_scalar(u);
        assert forall|i: int| 0 <= i < e.len() implies #[trigger] e[i] >= 0x80u8 by {}
    }
}

proof fn lemma_encode_single(c: char)
    ensures
        encode_utf8(seq![c]) == encode_scalar(c as u32),
{
    let one = seq![c];
    assert(one.drop_first() =~= Seq::<char>::empty());
    assert(encode_utf8(Seq::<char>::empty()) == Seq::<u8>::empty());
    assert(encode_utf8(one) == encode_scalar(one[0] as u32) + encode_utf8(one.drop_first()));
    assert(encode_scalar(c as u32) + Seq::<u8>::empty() =~= encode_scalar(c as u32));
}

/// Encoding distributes over concatenation.
pub proof fn lemma_encode_concat(a: Seq<char>, b: Seq<char>)
    ensures
        encode_utf8(a + b) == encode_utf8(a) + encode_utf8(b),
    decreases a.len(),
{
    if a.len() == 0 {
        assert(a + b =~= b);
    } else {
        lemma_encode_concat(a.drop_first(), b);
        assert((a + b).drop_first() =~= a.drop_first() + b);
        assert((a + b)[0] == a[0]);
    }
}

/// A text without line feeds encodes to bytes without line feeds, and one that does not end
/// with a carriage return to bytes that do not.
proof fn lemma_encode_line(l: Seq<char>)
    requires
        forall|k: int| 0 <= k < l.len() ==> l[k] != '\n',
        l.len() > 0 ==> l.last() != '\r',
    ensures
        forall|i: int| 0 <= i < encode_utf8(l).len() ==> #[trigger] encode_utf8(l)[i] != 10u8,
        encode_utf8(l).len() > 0 ==> encode_utf8(l).last() != 13u8,
        l.len() > 0 ==> encode_utf8(l).len() > 0,
    decreases l.len(),
{
    if l.len() > 0 {
        let init = l.drop_last();
        let c = l.last();
        assert(init + seq![c] =~= l);
        lemma_encode_concat(init, seq![c]);
        lemma_encode_line_no_lf(init);
        lemma_scalar_bytes(c);
        lemma_encode_single(c);
        let e = encode_utf8(l);
        let ei = encode_utf8(init);
        let ec = encode_scalar(c as u32);
        assert forall|i: int| 0 <= i < e.len() implies #[trigger] e[i] != 10u8 by {
            if i >= ei.len() {
                assert(e[i] == ec[i - ei.len()]);
            }
        }
        assert(e.last() == ec.last());
    }
}

proof fn lemma_encode_line_no_lf(l: Seq<char>)
    requires
        forall|k: int| 0 <= k < l.len() ==> l[k] != '\n',
    ensures
        forall|i: int| 0 <= i < encode_utf8(l).len() ==> #[trigger] encode_utf8(l)[i] != 10u8,
    decreases l.len(),
{
    if l.len() > 0 {
        let rest = l.drop_first();
        lemma_encode_line_no_lf(rest);
        lemma_scalar_bytes(l[0]);
        let e = encode_utf8(l);
        let e0 = encode_scalar(l[0] as u32);
        assert forall|i: int| 0 <= i < e.len() implies #[trigger] e[i] != 10u8 by {
            if i >= e0.len() {
                assert(e[i] == encode_utf8(rest)[i - e0.len()]);
            }
        }
    }
}

/// Scanning for line ends over a stretch without line feeds.
proof fn lemma_lines_scan(s: Seq<u8>, e: int, start: int, i: int)
    requires
        0 <= start <= i <= e < s.len(),
        s[e] == 10u8,
        forall|k: int| i <= k < e ==> s[k] != 10u8,
    ensures
        lines_at(s, start, i) == seq![strip_cr(s.subrange(start, e))] + lines_at(s, e + 1, e + 1),
    decreases e - i,
{
    if i < e {
        lemma_lines_scan(s, e, start, i + 1);
    }
}

/// The lines of `p + q` from a position inside `q` are the lines of `q` from there.
proof fn lemma_lines_shift(p: Seq<u8>, q: Seq<u8>, start: int, i: int)
    requires
        0 <= start <= i <= q.len(),
    ensures
        lines_at(p + q, p.len() + start, p.len() + i) == lines_at(q, start, i),
    decreases q.len() - i,
{
    let s = p + q;
    if i < q.len() {
        assert(s[p.len() + i] == q[i]);
        if q[i] == 10u8 {
            assert(s.subrange(p.len() + start, p.len() + i) =~= q.subrange(start, i));
            lemma_lines_shift(p, q, i + 1, i + 1);
        } else {
            lemma_lines_shift(p, q, start, i + 1);
        }
    } else {
        assert(s.subrange(p.len() + start, s.len() as int) =~= q.subrange(start, q.len() as int));
    }
}

/// Text made of lines, each ended by a line feed.
pub open spec fn text_of_lines(ls: Seq<Seq<char>>) -> Seq<char>
    decreases ls.len(),
{
    if ls.len() == 0 {
        seq![]
    } else {
        text_of_lines(ls.drop_last()) + ls.last() + seq!['\n']
    }
}

proof fn lemma_text_of_lines_front(ls: Seq<Seq<char>>)
    requires
        ls.len() > 0,
    ensures
        text_of_lines(ls) == ls[0] + seq!['\n'] + text_of_lines(ls.drop_first()),
    decreases ls.len(),
{
    if ls.len() > 1 {
        lemma_text_of_lines_front(ls.drop_last());
        assert(ls.drop_last().drop_first() =~= ls.drop_first().drop_last());
        assert(ls.drop_first().last() == ls.last());
        assert(text_of_lines(ls.drop_first()) == text_of_lines(ls.drop_first().drop_last()) + ls.last() + seq!['\n']);
        assert(text_of_lines(ls) =~= ls[0] + seq!['\n'] + text_of_lines(ls.drop_first()));
    } else {
        assert(ls.drop_last() =~= Seq::<Seq<char>>::empty());
        assert(ls.drop_first() =~= Seq::<Seq<char>>::empty());
        assert(text_of_lines(ls) =~= ls[0] + seq!['\n'] + text_of_lines(ls.drop_first()));
    }
}

/// A line that can be written and read back: no line feed in it, no carriage return at its end.
pub open spec fn writable_line(l: Seq<char>) -> bool {
    &&& forall|k: int| 0 <= k < l.len() ==> l[k] != '\n'
    &&& l.len() > 0 ==> l.last() != '\r'
}

/// The lines read from the UTF-8 bytes of text written line by line are the written lines.
pub proof fn lemma_read_written_lines(ls: Seq<Seq<char>>)
    requires
        forall|k: int| 0 <= k < ls.len() ==> writable_line(#[trigger] ls[k]),
    ensures
        byte_lines(encode_utf8(text_of_lines(ls))).map_values(|l: Seq<u8>| line_text(l)) == ls.map_values(
            |l: Seq<char>| Some(l),
        ),
    decreases ls.len(),
{
    broadcast use encode_utf8_valid_utf8, encode_utf8_decode_utf8;

    if ls.len() == 0 {
        assert(encode_utf8(text_of_lines(ls)) =~= Seq::<u8>::empty());
        assert(byte_lines(Seq::<u8>::empty()) =~= Seq::<Seq<u8>>::empty());
        assert(byte_lines(encode_utf8(text_of_lines(ls))).map_values(|l: Seq<u8>| line_text(l))
            =~= ls.map_values(|l: Seq<char>| Some(l)));
    } else {
        let l = ls[0];
        let rest = ls.drop_first();
        assert(writable_line(ls[0]));
        assert forall|k: int| 0 <= k < rest.len() implies writable_line(#[trigger] rest[k]) by {
            assert(rest[k] == ls[k + 1]);
        }
        lemma_read_written_lines(rest);
        lemma_text_of_lines_front(ls);
        let el = encode_utf8(l);
        let er = encode_utf8(text_of_lines(rest));
        lemma_encode_concat(l + seq!['\n'], text_of_lines(rest));
        lemma_encode_concat(l, seq!['\n']);
        lemma_encode_single('\n');
        assert(('\n' as u32) == 10);
        assert((10u32 & 0x7F) as u8 == 10u8) by (bit_vector);
        assert(encode_utf8(seq!['\n']) =~= seq![10u8]);
        let p = el + seq![10u8];
        let b = p + er;
        assert(encode_utf8(text_of_lines(ls)) == b);
        lemma_encode_line(l);
        assert(b[el.len() as int] == 10u8);
        assert forall|k: int| 0 <= k < el.len() implies b[k] != 10u8 by {
            assert(b[k] == el[k]);
        }
        lemma_lines_scan(b, el.len() as int, 0, 0);
        assert(b.subrange(0, el.len() as int) =~= el);
        assert(strip_cr(el) == el);
        lemma_lines_shift(p, er, 0, 0);
        assert(byte_lines(b) == seq![el] + byte_lines(er));
        assert(line_text(el) == Some(l));
        assert(byte_lines(b).map_values(|x: Seq<u8>| line_text(x)) =~= seq![Some(l)]
            + byte_lines(er).map_values(|x: Seq<u8>| line_text(x)));
        assert(ls.map_values(|x: Seq<char>| Some(x)) =~= seq![Some(l)] + rest.map_values(
            |x: Seq<char>| Some(x),
        ));
    }
}

/// Scanning for word ends over a stretch without spaces.
proof fn lemma_words_scan(s: Seq<char>, kind: Spacing, start: int, i: int, j: int)
    requires
        0 <= start <= i <= j <= s.len(),
        forall|k: int| i <= k < j ==> !is_space(kind, #[trigger] s[k]),
    ensures
        words_at(s, kind, start, i) == words_at(s, kind, start, j),
    decreases j - i,
{
    if i < j {
        lemma_words_scan(s, kind, start, i + 1, j);
    }
}

/// A bind as the binds file holds it: a name and a desktop separated by a space.
pub open spec fn bind_line(x: (Seq<char>, Seq<char>)) -> Seq<char> {
    x.0 + seq![' '] + x.1
}

/// A bind that the binds file can hold: a name that is not empty, and neither the name nor the
/// desktop with a whitespace character in it.
pub open spec fn storable_bind(x: (Seq<char>, Seq<char>)) -> bool {
    &&& x.0.len() > 0
    &&& forall|k: int| 0 <= k < x.0.len() ==> !is_space(Spacing::Unicode, #[trigger] x.0[k])
    &&& forall|k: int| 0 <= k < x.1.len() ==> !is_space(Spacing::Unicode, #[trigger] x.1[k])
}

proof fn lemma_bind_line_words(x: (Seq<char>, Seq<char>))
    requires
        storable_bind(x),
    ensures
        words(bind_line(x), Spacing::Unicode) == seq![x.0] + nonempty(x.1),
        writable_line(bind_line(x)),
{
    let l = bind_line(x);
    let n = x.0.len() as int;
    assert(is_space(Spacing::Unicode, ' '));
    assert forall|k: int| 0 <= k < n implies !is_space(Spacing::Unicode, #[trigger] l[k]) by {
        assert(l[k] == x.0[k]);
    }
    lemma_words_scan(l, Spacing::Unicode, 0, 0, n);
    assert(l[n] == ' ');
    assert(l.subrange(0, n) =~= x.0);
    assert forall|k: int| n + 1 <= k < l.len() implies !is_space(Spacing::Unicode, #[trigger] l[k]) by {
        assert(l[k] == x.1[k - n - 1]);
    }
    lemma_words_scan(l, Spacing::Unicode, n + 1, n + 1, l.len() as int);
    assert(l.subrange(n + 1, l.len() as int) =~= x.1);
    assert(is_space(Spacing::Unicode, '\n'));
    assert(is_space(Spacing::Unicode, '\r'));
    assert forall|k: int| 0 <= k < l.len() implies l[k] != '\n' by {
        if k < n {
            assert(l[k] == x.0[k]);
        } else if k > n {
            assert(l[k] == x.1[k - n - 1]);
        }
    }
    if x.1.len() > 0 {
        assert(l.last() == x.1[x.1.len() - 1]);
    }
}

proof fn lemma_binds_text_lines(b: Seq<(Seq<char>, Seq<char>)>)
    ensures
        binds_text(b) == text_of_lines(b.map_values(|x: (Seq<char>, Seq<char>)| bind_line(x))),
    decreases b.len(),
{
    let ls = b.map_values(|x: (Seq<char>, Seq<char>)| bind_line(x));
    if b.len() > 0 {
        lemma_binds_text_lines(b.drop_last());
        assert(ls.drop_last() =~= b.drop_last().map_values(|x: (Seq<char>, Seq<char>)| bind_line(x)));
        assert(binds_text(b) =~= text_of_lines(ls));
    } else {
        assert(ls =~= Seq::<Seq<char>>::empty());
    }
}

proof fn lemma_binds_from_lines(b: Seq<(Seq<char>, Seq<char>)>, i: int)
    requires
        0 <= i <= b.len(),
        forall|k: int| 0 <= k < b.len() ==> storable_bind(#[trigger] b[k]),
    ensures
        binds_from(
            b.map_values(|x: (Seq<char>, Seq<char>)| bind_line(x)).map_values(|l: Seq<char>| Some(l)),
            i,
        ) == b.subrange(i, b.len() as int),
    decreases b.len() - i,
{
    let ls = b.map_values(|x: (Seq<char>, Seq<char>)| bind_line(x)).map_values(|l: Seq<char>| Some(l));
    if i < b.len() {
        lemma_binds_from_lines(b, i + 1);
        assert(storable_bind(b[i]));
        lemma_bind_line_words(b[i]);
        assert(ls[i] == Some(bind_line(b[i])));
        let w = words(bind_line(b[i]), Spacing::Unicode);
        assert(w.drop_first() =~= nonempty(b[i].1));
        assert(joined(nonempty(b[i].1), seq![]) == b[i].1) by {
            if b[i].1.len() > 0 {
                assert(nonempty(b[i].1).len() == 1);
            }
        }
        assert(b.subrange(i, b.len() as int) =~= seq![b[i]] + b.subrange(i + 1, b.len() as int));
    } else {
        assert(b.subrange(i, b.len() as int) =~= Seq::<(Seq<char>, Seq<char>)>::empty());
    }
}

/// Reading the binds file gives back the binds it was written from, for binds whose names
/// are not empty and whose names and desktops hold no whitespace.
pub proof fn law_binds_file_round_trip(b: Seq<(Seq<char>, Seq<char>)>)
    requires
        forall|k: int| 0 <= k < b.len() ==> storable_bind(#[trigger] b[k]),
    ensures
        binds_in_file(encode_utf8(binds_text(b))) == b,
{
    let ls = b.map_values(|x: (Seq<char>, Seq<char>)| bind_line(x));
    lemma_binds_text_lines(b);
    assert forall|k: int| 0 <= k < ls.len() implies writable_line(#[trigger] ls[k]) by {
        lemma_bind_line_words(b[k]);
    }
    lemma_read_written_lines(ls);
    lemma_binds_from_lines(b, 0);
    assert(b.subrange(0, b.len() as int) =~= b);
}

/// Scanning for a separator over a stretch where it does not occur.
proof fn lemma_pieces_scan(s: Seq<char>, sep: Seq<char>, start: int, i: int, j: int)
    requires
        sep.len() > 0,
        0 <= start <= i <= j,
        j + sep.len() <= s.len(),
        forall|k: int| i <= k < j ==> !#[trigger] occurs_at(s, sep, k),
    ensures
        pieces_at(s, sep, start, i) == pieces_at(s, sep, start, j),
    decreases j - i,
{
    if i < j {
        assert(!occurs_at(s, sep, i));
        lemma_pieces_scan(s, sep, start, i + 1, j);
    }
}

/// Where the separator does not occur from `i` on, what is left is one last piece.
proof fn lemma_pieces_end(s: Seq<char>, sep: Seq<char>, start: int, i: int)
    requires
        sep.len() > 0,
        0 <= start <= i,
        forall|k: int| i <= k < s.len() ==> !#[trigger] occurs_at(s, sep, k),
    ensures
        pieces_at(s, sep, start, i) == seq![s.subrange(start, s.len() as int)],
    decreases s.len() - i,
{
    if i + sep.len() <= s.len() {
        assert(!occurs_at(s, sep, i));
        lemma_pieces_end(s, sep, start, i + 1);
    }
}

/// A specific desktop as its file holds it: the name, `>>`, the path.
pub open spec fn desktop_line(x: (Seq<char>, Seq<char>)) -> Seq<char> {
    x.0 + seq!['>', '>'] + x.1
}

/// `>>`, the separator between a desktop's name and its path, occurs in `t` at `k`.
pub open spec fn separator_at(t: Seq<char>, k: int) -> bool {
    occurs_at(t, seq!['>', '>'], k)
}

/// `>>`, the separator between a desktop's name and its path, does not occur in `t`.
pub open spec fn without_separator(t: Seq<char>) -> bool {
    forall|k: int| !#[trigger] separator_at(t, k)
}

/// A specific desktop that its file can hold: no `>>` in the name or the path, a name that
/// does not end in '>', no line feed in either, and a path that does not end in a carriage
/// return (which reading would take for part of the line end).
pub open spec fn storable_desktop(x: (Seq<char>, Seq<char>)) -> bool {
    &&& without_separator(x.0)
    &&& without_separator(x.1)
    &&& x.0.len() > 0 ==> x.0.last() != '>'
    &&& forall|k: int| 0 <= k < x.0.len() ==> #[trigger] x.0[k] != '\n'
    &&& forall|k: int| 0 <= k < x.1.len() ==> #[trigger] x.1[k] != '\n'
    &&& x.1.len() > 0 ==> x.1.last() != '\r'
}

proof fn lemma_desktop_line_pieces(x: (Seq<char>, Seq<char>))
    requires
        storable_desktop(x),
    ensures
        pieces(desktop_line(x), seq!['>', '>']) == seq![x.0, x.1],
        writable_line(desktop_line(x)),
{
    let l = desktop_line(x);
    let sep = seq!['>', '>'];
    let n = x.0.len() as int;
    assert forall|k: int| 0 <= k < n implies !#[trigger] occurs_at(l, sep, k) by {
        if occurs_at(l, sep, k) {
            if k + 2 <= n {
                assert(l.subrange(k, k + 2) =~= x.0.subrange(k, k + 2));
                assert(separator_at(x.0, k));
            } else {
                assert(k == n - 1);
                assert(l.subrange(k, k + 2)[0] == l[k]);
                assert(l[k] == x.0[n - 1]);
            }
        }
    }
    lemma_pieces_scan(l, sep, 0, 0, n);
    assert(l.subrange(n, n + 2) =~= sep);
    assert(occurs_at(l, sep, n));
    assert(l.subrange(0, n) =~= x.0);
    assert forall|k: int| n + 2 <= k < l.len() implies !#[trigger] occurs_at(l, sep, k) by {
        if occurs_at(l, sep, k) {
            assert(l.subrange(k, k + 2) =~= x.1.subrange(k - n - 2, k - n));
            assert(separator_at(x.1, k - n - 2));
        }
    }
    lemma_pieces_end(l, sep, n + 2, n + 2);
    assert(l.subrange(n + 2, l.len() as int) =~= x.1);
    assert(pieces(l, sep) =~= seq![x.0, x.1]);
    assert forall|k: int| 0 <= k < l.len() implies l[k] != '\n' by {
        if k < n {
            assert(l[k] == x.0[k]);
        } else if k >= n + 2 {
            assert(l[k] == x.1[k - n - 2]);
        }
    }
    if x.1.len() > 0 {
        assert(l.last() == x.1[x.1.len() - 1]);
    }
}

proof fn lemma_desktops_text_lines(d: Seq<(Seq<char>, Seq<char>)>)
    ensures
        desktops_text(d) == text_of_lines(d.map_values(|x: (Seq<char>, Seq<char>)| desktop_line(x))),
    decreases d.len(),
{
    let ls = d.map_values(|x: (Seq<char>, Seq<char>)| desktop_line(x));
    if d.len() > 0 {
        lemma_desktops_text_lines(d.drop_last());
        assert(ls.drop_last() =~= d.drop_last().map_values(|x: (Seq<char>, Seq<char>)| desktop_line(x)));
        assert(desktops_text(d) =~= text_of_lines(ls));
    } else {
        assert(ls =~= Seq::<Seq<char>>::empty());
    }
}

proof fn lemma_desktops_from_lines(d: Seq<(Seq<char>, Seq<char>)>, i: int)
    requires
        0 <= i <= d.len(),
        forall|k: int| 0 <= k < d.len() ==> storable_desktop(#[trigger] d[k]),
    ensures
        desktops_from(
            d.map_values(|x: (Seq<char>, Seq<char>)| desktop_line(x)).map_values(|l: Seq<char>| Some(l)),
            i,
        ) == d.subrange(i, d.len() as int),
    decreases d.len() - i,
{
    let ls = d.map_values(|x: (Seq<char>, Seq<char>)| desktop_line(x)).map_values(|l: Seq<char>| Some(l));
    if i < d.len() {
        lemma_desktops_from_lines(d, i + 1);
        assert(storable_desktop(d[i]));
        lemma_desktop_line_pieces(d[i]);
        assert(ls[i] == Some(desktop_line(d[i])));
        let p = pieces(desktop_line(d[i]), seq!['>', '>']);
        assert(p.drop_first() =~= seq![d[i].1]);
        assert(joined(seq![d[i].1], seq![' ']) == d[i].1);
        assert(d.subrange(i, d.len() as int) =~= seq![d[i]] + d.subrange(i + 1, d.len() as int));
    } else {
        assert(d.subrange(i, d.len() as int) =~= Seq::<(Seq<char>, Seq<char>)>::empty());
    }
}

/// Reading the specific desktops file gives back the desktops it was written from, for names
/// and paths that the file can hold (`storable_desktop`).
pub proof fn law_desktops_file_round_trip(d: Seq<(Seq<char>, Seq<char>)>)
    requires
        forall|k: int| 0 <= k < d.len() ==> storable_desktop(#[trigger] d[k]),
    ensures
        desktops_in_file(encode_utf8(desktops_text(d))) == d,
{
    let ls = d.map_values(|x: (Seq<char>, Seq<char>)| desktop_line(x));
    lemma_desktops_text_lines(d);
    assert forall|k: int| 0 <= k < ls.len() implies writable_line(#[trigger] ls[k]) by {
        lemma_desktop_line_pieces(d[k]);
    }
    lemma_read_written_lines(ls);
    lemma_desktops_from_lines(d, 0);
    assert(d.subrange(0, d.len() as int) =~= d);
}

proof fn lemma_pieces_nonempty(s: Seq<char>, sep: Seq<char>, start: int, i: int)
    ensures
        pieces_at(s, sep, start, i).len() >= 1,
    decreases s.len() - i,
{
    if !(sep.len() == 0 || i + sep.len() > s.len() || i < start || start < 0) {
        if occurs_at(s, sep, i) {
            lemma_pieces_nonempty(s, sep, i + sep.len(), i + sep.len());
        } else {
            lemma_pieces_nonempty(s, sep, start, i + 1);
        }
    }
}

proof fn lemma_joined_front(a: Seq<char>, rest: Seq<Seq<char>>, sep: Seq<char>)
    requires
        rest.len() >= 1,
    ensures
        joined(seq![a] + rest, sep) == a + sep + joined(rest, sep),
    decreases rest.len(),
{
    let all = seq![a] + rest;
    if rest.len() == 1 {
        assert(all.drop_last() =~= seq![a]);
        assert(joined(all, sep) =~= a + sep + joined(rest, sep));
    } else {
        lemma_joined_front(a, rest.drop_last(), sep);
        assert(all.drop_last() =~= seq![a] + rest.drop_last());
        assert(all.last() == rest.last());
        assert(joined(all, sep) == joined(all.drop_last(), sep) + sep + all.last());
        assert(joined(rest, sep) == joined(rest.drop_last(), sep) + sep + rest.last());
        assert(joined(all, sep) =~= a + sep + joined(rest, sep));
    }
}

proof fn lemma_pieces_joined(s: Seq<char>, sep: Seq<char>, start: int, i: int)
    requires
        sep.len() > 0,
        0 <= start <= i <= s.len(),
    ensures
        joined(pieces_at(s, sep, start, i), sep) == s.subrange(start, s.len() as int),
    decreases s.len() - i,
{
    if i + sep.len() > s.len() {
    } else if occurs_at(s, sep, i) {
        let m = sep.len() as int;
        lemma_pieces_joined(s, sep, i + m, i + m);
        lemma_pieces_nonempty(s, sep, i + m, i + m);
        lemma_joined_front(s.subrange(start, i), pieces_at(s, sep, i + m, i + m), sep);
        assert(s.subrange(start, s.len() as int) =~= s.subrange(start, i) + sep + s.subrange(
            i + m,
            s.len() as int,
        ));
    } else {
        lemma_pieces_joined(s, sep, start, i + 1);
    }
}

/// Putting the pieces of a split back together, with the separator between them, gives back
/// the text that was split.
pub proof fn law_split_then_join(s: Seq<char>, sep: Seq<char>)
    requires
        sep.len() > 0,
    ensures
        joined(pieces(s, sep), sep) == s,
{
    lemma_pieces_joined(s, sep, 0, 0);
    assert(s.subrange(0, s.len() as int) =~= s);
}

/// Every word is a non-empty run of characters that are not spaces.
pub proof fn lemma_words_are_words(s: Seq<char>, kind: Spacing, start: int, i: int)
    requires
        0 <= start <= i <= s.len(),
        forall|k: int| start <= k < i ==> !is_space(kind, #[trigger] s[k]),
    ensures
        forall|n: int| 0 <= n < words_at(s, kind, start, i).len() ==> {
            let w = #[trigger] words_at(s, kind, start, i)[n];
            &&& w.len() > 0
            &&& forall|k: int| 0 <= k < w.len() ==> !is_space(kind, #[trigger] w[k])
        },
    decreases s.len() - i,
{
    let ws = words_at(s, kind, start, i);
    if i >= s.len() {
        let w = s.subrange(start, s.len() as int);
        assert forall|k: int| 0 <= k < w.len() implies !is_space(kind, #[trigger] w[k]) by {
            assert(w[k] == s[start + k]);
        }
        assert(ws == nonempty(w));
        assert forall|n: int| 0 <= n < ws.len() implies {
            let v = #[trigger] ws[n];
            &&& v.len() > 0
            &&& forall|k: int| 0 <= k < v.len() ==> !is_space(kind, #[trigger] v[k])
        } by {
            assert(ws[n] == w);
        }
    } else if is_space(kind, s[i]) {
        lemma_words_are_words(s, kind, i + 1, i + 1);
        let w = s.subrange(start, i);
        assert forall|k: int| 0 <= k < w.len() implies !is_space(kind, #[trigger] w[k]) by {
            assert(w[k] == s[start + k]);
        }
        let rest = words_at(s, kind, i + 1, i + 1);
        assert forall|n: int| 0 <= n < ws.len() implies {
            let v = #[trigger] ws[n];
            &&& v.len() > 0
            &&& forall|k: int| 0 <= k < v.len() ==> !is_space(kind, #[trigger] v[k])
        } by {
            if n >= nonempty(w).len() {
                assert(ws[n] == rest[n - nonempty(w).len()]);
            }
        }
    } else {
        lemma_words_are_words(s, kind, start, i + 1);
        assert(ws == words_at(s, kind, start, i + 1));
    }
}

proof fn lemma_joined_no_space(parts: Seq<Seq<char>>, kind: Spacing)
    requires
        forall|n: int, k: int|
            0 <= n < parts.len() && 0 <= k < parts[n].len() ==> !is_space(kind, #[trigger] parts[n][k]),
    ensures
        forall|k: int| 0 <= k < joined(parts, seq![]).len() ==> !is_space(kind, #[trigger] joined(parts, seq![])[k]),
    decreases parts.len(),
{
    if parts.len() > 1 {
        lemma_joined_no_space(parts.drop_last(), kind);
        let a = joined(parts.drop_last(), seq![]);
        let j = joined(parts, seq![]);
        assert(j =~= a + parts.last());
        assert forall|k: int| 0 <= k < j.len() implies !is_space(kind, #[trigger] j[k]) by {
            if k >= a.len() {
                assert(j[k] == parts[parts.len() - 1][k - a.len()]);
            } else {
                assert(j[k] == a[k]);
            }
        }
    } else if parts.len() == 1 {
        assert forall|k: int| 0 <= k < parts[0].len() implies !is_space(kind, #[trigger] parts[0][k]) by {}
    }
}

proof fn lemma_binds_read_storable(ls: Seq<Option<Seq<char>>>, i: int)
    requires
        0 <= i,
    ensures
        forall|k: int| 0 <= k < binds_from(ls, i).len() ==> storable_bind(#[trigger] binds_from(ls, i)[k]),
    decreases ls.len() - i,
{
    if i < ls.len() {
        lemma_binds_read_storable(ls, i + 1);
        if ls[i] is None {
            assert(binds_from(ls, i) == binds_from(ls, i + 1));
        }
        if let Some(l) = ls[i] {
            let w = words(l, Spacing::Unicode);
            if w.len() > 0 {
                lemma_words_are_words(l, Spacing::Unicode, 0, 0);
                let rest = w.drop_first();
                assert forall|n: int, k: int| 0 <= n < rest.len() && 0 <= k < rest[n].len() implies !is_space(
                    Spacing::Unicode,
                    #[trigger] rest[n][k],
                ) by {
                    assert(rest[n] == w[n + 1]);
                }
                lemma_joined_no_space(rest, Spacing::Unicode);
                let x = (w[0], joined(rest, seq![]));
                assert(storable_bind(x));
                let all = binds_from(ls, i);
                let tail = binds_from(ls, i + 1);
                assert forall|k: int| 0 <= k < all.len() implies storable_bind(#[trigger] all[k]) by {
                    if k > 0 {
                        assert(all[k] == tail[k - 1]);
                    }
                }
            }
        }
    }
}

/// The binds file settles after one rewrite: writing back the binds read from any file and
/// reading them again gives the same binds.
pub proof fn law_binds_file_settles(bytes: Seq<u8>)
    ensures
        binds_in_file(encode_utf8(binds_text(binds_in_file(bytes)))) == binds_in_file(bytes),
{
    lemma_binds_read_storable(file_lines(bytes), 0);
    law_binds_file_round_trip(binds_in_file(bytes));
}

/// The words of `p + q` from a position inside `q` are the words of `q` from there.
proof fn lemma_words_shift(p: Seq<char>, q: Seq<char>, kind: Spacing, start: int, i: int)
    requires
        0 <= start <= i <= q.len(),
    ensures
        words_at(p + q, kind, p.len() + start, p.len() + i) == words_at(q, kind, start, i),
    decreases q.len() - i,
{
    let s = p + q;
    if i < q.len() {
        assert(s[p.len() + i] == q[i]);
        if is_space(kind, q[i]) {
            assert(s.subrange(p.len() + start, p.len() + i) =~= q.subrange(start, i));
            lemma_words_shift(p, q, kind, i + 1, i + 1);
        } else {
            lemma_words_shift(p, q, kind, start, i + 1);
        }
    } else {
        assert(s.subrange(p.len() + start, s.len() as int) =~= q.subrange(start, q.len() as int));
    }
}

/// Scanning `x + [c] + y`, with `c` a space, inside `x` finds the words of `x` first.
proof fn lemma_words_split(x: Seq<char>, c: char, y: Seq<char>, kind: Spacing, start: int, i: int)
    requires
        is_space(kind, c),
        0 <= start <= i <= x.len(),
    ensures
        words_at(x + seq![c] + y, kind, start, i) == words_at(x, kind, start, i) + words_at(
            x + seq![c] + y,
            kind,
            x.len() + 1int,
            x.len() + 1int,
        ),
    decreases x.len() - i,
{
    let s = x + seq![c] + y;
    if i == x.len() {
        assert(s[i] == c);
        assert(s.subrange(start, i) =~= x.subrange(start, x.len() as int));
    } else {
        assert(s[i] == x[i]);
        if is_space(kind, x[i]) {
            assert(s.subrange(start, i) =~= x.subrange(start, i));
            lemma_words_split(x, c, y, kind, i + 1, i + 1);
            assert(words_at(s, kind, start, i) =~= words_at(x, kind, start, i) + words_at(
                s,
                kind,
                x.len() + 1int,
                x.len() + 1int,
            ));
        } else {
            lemma_words_split(x, c, y, kind, start, i + 1);
        }
    }
}

/// The words of two texts joined by a space are the words of the first, then of the second.
pub proof fn lemma_words_concat(x: Seq<char>, c: char, y: Seq<char>, kind: Spacing)
    requires
        is_space(kind, c),
    ensures
        words(x + seq![c] + y, kind) == words(x, kind) + words(y, kind),
{
    lemma_words_split(x, c, y, kind, 0, 0);
    lemma_words_shift(x + seq![c], y, kind, 0, 0);
    assert(x + seq![c] + y =~= (x + seq![c]) + y);
}

/// Splitting words joined by single spaces gives back the words, when each is a non-empty
/// run of characters that are not spaces.
pub proof fn law_words_of_joined(ws: Seq<Seq<char>>, kind: Spacing)
    requires
        forall|n: int| 0 <= n < ws.len() ==> #[trigger] ws[n].len() > 0,
        forall|n: int, k: int| 0 <= n < ws.len() && 0 <= k < ws[n].len() ==> !is_space(kind, #[trigger] ws[n][k]),
    ensures
        words(joined(ws, seq![' ']), kind) == ws,
    decreases ws.len(),
{
    assert(is_space(kind, ' '));
    if ws.len() == 0 {
        assert(words(Seq::<char>::empty(), kind) =~= Seq::<Seq<char>>::empty());
    } else {
        let last = ws.last();
        assert forall|k: int| 0 <= k < last.len() implies !is_space(kind, #[trigger] last[k]) by {
            assert(ws[ws.len() - 1][k] == last[k]);
        }
        lemma_words_scan(last, kind, 0, 0, last.len() as int);
        assert(last.subrange(0, last.len() as int) =~= last);
        assert(words(last, kind) == seq![last]);
        if ws.len() == 1 {
            assert(ws =~= seq![last]);
        } else {
            let init = ws.drop_last();
            assert forall|n: int, k: int| 0 <= n < init.len() && 0 <= k < init[n].len() implies !is_space(
                kind,
                #[trigger] init[n][k],
            ) by {
                assert(init[n] == ws[n]);
            }
            assert forall|n: int| 0 <= n < init.len() implies #[trigger] init[n].len() > 0 by {
                assert(init[n] == ws[n]);
            }
            law_words_of_joined(init, kind);
            lemma_words_concat(joined(init, seq![' ']), ' ', last, kind);
            assert(ws =~= init + seq![last]);
        }
    }
}

} // verus!
