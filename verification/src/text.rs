//! Character- and byte-level splitting that the command language and the data files rely on.
use vstd::prelude::*;
use vstd::string::*;
use vstd::utf8::*;
use crate::platform::utf8_text;

verus! {

/// Which characters separate words.
#[derive(Clone, Copy, PartialEq, Eq, Debug)]
pub enum Spacing {
    /// The ASCII whitespace of `str::split_ascii_whitespace`: space, tab, line feed, form feed, carriage return.
    Ascii,
    /// The Unicode `White_Space` property used by `str::split_whitespace`.
    Unicode,
}

pub open spec fn is_ascii_space(c: char) -> bool {
    c == ' ' || c == '\t' || c == '\n' || c == '\x0C' || c == '\r'
}

/// The characters that carry the Unicode `White_Space` property.
pub open spec fn is_unicode_space(c: char) -> bool {
    let u = c as u32;
    ||| 0x09 <= u <= 0x0D
    ||| u == 0x20
    ||| u == 0x85
    ||| u == 0xA0
    ||| u == 0x1680
    ||| 0x2000 <= u <= 0x200A
    ||| u == 0x2028
    ||| u == 0x2029
    ||| u == 0x202F
    ||| u == 0x205F
    ||| u == 0x3000
}

pub open spec fn is_space(kind: Spacing, c: char) -> bool {
    match kind {
        Spacing::Ascii => is_ascii_space(c),
        Spacing::Unicode => is_unicode_space(c),
    }
}

/// The views of a sequence of strings.
pub open spec fn views(v: Seq<String>) -> Seq<Seq<char>> {
    v.map_values(|w: String| w@)
}

pub open spec fn nonempty(w: Seq<char>) -> Seq<Seq<char>> {
    if w.len() > 0 {
        seq![w]
    } else {
        seq![]
    }
}

/// The words of `s[start..]` when the scan stands at `i` and the current word began at `start`:
/// each maximal run of non-space characters is one word.
pub open spec fn words_at(s: Seq<char>, kind: Spacing, start: int, i: int) -> Seq<Seq<char>>
    decreases s.len() - i,
{
    if i >= s.len() || i < start || start < 0 {
        nonempty(s.subrange(start, s.len() as int))
    } else if is_space(kind, s[i]) {
        nonempty(s.subrange(start, i)) + words_at(s, kind, i + 1, i + 1)
    } else {
        words_at(s, kind, start, i + 1)
    }
}

/// The words of `s`: its maximal runs of non-space characters, in order.
pub open spec fn words(s: Seq<char>, kind: Spacing) -> Seq<Seq<char>> {
    words_at(s, kind, 0, 0)
}

/// Whether `sep` occurs in `s` at position `i`.
pub open spec fn occurs_at(s: Seq<char>, sep: Seq<char>, i: int) -> bool {
    0 <= i && i + sep.len() <= s.len() && s.subrange(i, i + sep.len()) == sep
}

/// The pieces of `s[start..]` between the non-overlapping occurrences of `sep`, found from the left,
/// when the scan stands at `i`.
pub open spec fn pieces_at(s: Seq<char>, sep: Seq<char>, start: int, i: int) -> Seq<Seq<char>>
    decreases s.len() - i,
{
    if sep.len() == 0 || i + sep.len() > s.len() || i < start || start < 0 {
        seq![s.subrange(start, s.len() as int)]
    } else if occurs_at(s, sep, i) {
        seq![s.subrange(start, i)] + pieces_at(s, sep, i + sep.len(), i + sep.len())
    } else {
        pieces_at(s, sep, start, i + 1)
    }
}

/// The pieces of `s` between the occurrences of `sep`, as `str::split` yields them.
pub open spec fn pieces(s: Seq<char>, sep: Seq<char>) -> Seq<Seq<char>> {
    pieces_at(s, sep, 0, 0)
}

/// `parts` joined with `sep` between consecutive parts.
pub open spec fn joined(parts: Seq<Seq<char>>, sep: Seq<char>) -> Seq<char>
    decreases parts.len(),
{
    if parts.len() == 0 {
        seq![]
    } else if parts.len() == 1 {
        parts[0]
    } else {
        joined(parts.drop_last(), sep) + sep + parts.last()
    }
}

/// The characters of `s`, in order.
pub fn chars_of(s: &str) -> (v: Vec<char>)
    ensures
        v@ == s@,
{
    broadcast use vstd::string::group_string_axioms;

    let mut v: Vec<char> = Vec::new();
    for c in it: s.chars()
        invariant
            v@ == it.seq().take(it.index() as int),
    {
        v.push(c);
    }
    v
}

pub fn is_space_char(kind: Spacing, c: char) -> (b: bool)
    ensures
        b == is_space(kind, c),
{
    match kind {
        Spacing::Ascii => c == ' ' || c == '\t' || c == '\n' || c == '\x0C' || c == '\r',
        Spacing::Unicode => {
            let u = c as u32;
            (0x09 <= u && u <= 0x0D) || u == 0x20 || u == 0x85 || u == 0xA0 || u == 0x1680 || (
            0x2000 <= u && u <= 0x200A) || u == 0x2028 || u == 0x2029 || u == 0x202F || u == 0x205F
                || u == 0x3000
        },
    }
}

/// The words of `s`, as `split_ascii_whitespace` (for `Spacing::Ascii`) or `split_whitespace`
/// (for `Spacing::Unicode`) yields them.
pub fn split_words(s: &str, kind: Spacing) -> (res: Vec<String>)
    ensures
        views(res@) == words(s@, kind),
{
    let cs = chars_of(s);
    let n = cs.len();
    let mut res: Vec<String> = Vec::new();
    let mut start: usize = 0;
    let mut i: usize = 0;
    while i < n
        invariant
            cs@ == s@,
            n == s@.len(),
            start <= i <= n,
            views(res@) + words_at(s@, kind, start as int, i as int) == words(s@, kind),
        decreases n - i,
    {
        if is_space_char(kind, cs[i]) {
            if start < i {
                let w = s.substring_char(start, i).to_owned();
                let ghost prev = views(res@);
                res.push(w);
                assert(views(res@) =~= prev.push(w@));
            }
            assert(words_at(s@, kind, start as int, i as int) == nonempty(
                s@.subrange(start as int, i as int),
            ) + words_at(s@, kind, i + 1, i + 1));
            start = i + 1;
        }
        i = i + 1;
    }
    if start < n {
        let w = s.substring_char(start, n).to_owned();
        let ghost prev = views(res@);
        res.push(w);
        assert(views(res@) =~= prev.push(w@));
    }
    res
}

/// `s` without its leading and trailing Unicode whitespace, as `str::trim` gives it.
pub open spec fn trimmed(s: Seq<char>) -> Seq<char>
    decreases s.len(),
{
    if s.len() > 0 && is_unicode_space(s[0]) {
        trimmed(s.drop_first())
    } else if s.len() > 0 && is_unicode_space(s.last()) {
        trimmed(s.drop_last())
    } else {
        s
    }
}

/// `s` without its leading and trailing Unicode whitespace, as `str::trim` gives it.
pub fn trim_text(s: &str) -> (res: String)
    ensures
        res@ == trimmed(s@),
{
    let cs = chars_of(s);
    let n = cs.len();
    let mut i: usize = 0;
    assert(s@.subrange(0, n as int) =~= s@);
    while i < n && is_space_char(Spacing::Unicode, cs[i])
        invariant
            cs@ == s@,
            n == s@.len(),
            i <= n,
            trimmed(s@) == trimmed(s@.subrange(i as int, n as int)),
        decreases n - i,
    {
        assert(s@.subrange(i as int, n as int).drop_first() =~= s@.subrange(i + 1, n as int));
        i = i + 1;
    }
    let mut j: usize = n;
    while j > i && is_space_char(Spacing::Unicode, cs[j - 1])
        invariant
            cs@ == s@,
            n == s@.len(),
            i <= j <= n,
            i < n ==> !is_unicode_space(s@[i as int]),
            trimmed(s@) == trimmed(s@.subrange(i as int, j as int)),
        decreases j - i,
    {
        let ghost t = s@.subrange(i as int, j as int);
        assert(t[0] == s@[i as int]);
        assert(t.last() == s@[j - 1]);
        assert(t.drop_last() =~= s@.subrange(i as int, j - 1));
        j = j - 1;
    }
    proof {
        let t = s@.subrange(i as int, j as int);
        if i < j {
            assert(t[0] == s@[i as int]);
            assert(t.last() == s@[j - 1]);
        }
    }
    s.substring_char(i, j).to_owned()
}

/// Whether `sep` occurs in `cs` at position `i`.
fn occurs_at_exec(cs: &Vec<char>, sep: &Vec<char>, i: usize) -> (b: bool)
    ensures
        b == occurs_at(cs@, sep@, i as int),
{
    if i > cs.len() || sep.len() > cs.len() - i {
        return false;
    }
    let mut k: usize = 0;
    while k < sep.len()
        invariant
            i + sep.len() <= cs.len(),
            k <= sep.len(),
            forall|j: int| 0 <= j < k ==> cs@[i + j] == sep@[j],
        decreases sep.len() - k,
    {
        if cs[i + k] != sep[k] {
            assert(cs@.subrange(i as int, i + sep@.len())[k as int] != sep@[k as int]);
            return false;
        }
        k = k + 1;
    }
    assert(cs@.subrange(i as int, i + sep@.len()) =~= sep@);
    true
}

/// The pieces of `s` between the occurrences of `sep`, as `str::split` yields them.
pub fn split_pieces(s: &str, sep: &str) -> (res: Vec<String>)
    requires
        sep@.len() > 0,
    ensures
        views(res@) == pieces(s@, sep@),
{
    let cs = chars_of(s);
    let sp = chars_of(sep);
    let n = cs.len();
    let m = sp.len();
    let mut res: Vec<String> = Vec::new();
    let mut start: usize = 0;
    let mut i: usize = 0;
    while i < n && m <= n - i
        invariant
            cs@ == s@,
            sp@ == sep@,
            n == s@.len(),
            m == sep@.len(),
            m > 0,
            start <= i <= n,
            views(res@) + pieces_at(s@, sep@, start as int, i as int) == pieces(s@, sep@),
        decreases n - i,
    {
        if occurs_at_exec(&cs, &sp, i) {
            let w = s.substring_char(start, i).to_owned();
            let ghost prev = views(res@);
            res.push(w);
            assert(views(res@) =~= prev.push(w@));
            assert(pieces_at(s@, sep@, start as int, i as int) == seq![s@.subrange(start as int, i as int)]
                + pieces_at(s@, sep@, i + m, i + m));
            start = i + m;
            i = i + m;
        } else {
            i = i + 1;
        }
    }
    let w = s.substring_char(start, n).to_owned();
    let ghost prev = views(res@);
    res.push(w);
    assert(views(res@) =~= prev.push(w@));
    res
}

/// `parts` joined with `sep` between consecutive parts, as `[String]::join` builds it.
pub fn join_with(parts: &[String], sep: &str) -> (res: String)
    ensures
        res@ == joined(views(parts@), sep@),
{
    let mut res = String::new();
    let mut i: usize = 0;
    while i < parts.len()
        invariant
            i <= parts.len(),
            res@ == joined(views(parts@).take(i as int), sep@),
        decreases parts.len() - i,
    {
        if i > 0 {
            res.append(sep);
        }
        res.append(parts[i].as_str());
        assert(views(parts@).take(i + 1).drop_last() =~= views(parts@).take(i as int));
        i = i + 1;
    }
    assert(views(parts@).take(parts.len() as int) =~= views(parts@));
    res
}

/// `parts` put one after another, as collecting string slices into a `String` builds it.
pub fn concat_all(parts: &[String]) -> (res: String)
    ensures
        res@ == joined(views(parts@), seq![]),
{
    let mut res = String::new();
    let mut i: usize = 0;
    while i < parts.len()
        invariant
            i <= parts.len(),
            res@ == joined(views(parts@).take(i as int), seq![]),
        decreases parts.len() - i,
    {
        res.append(parts[i].as_str());
        assert(views(parts@).take(i + 1).drop_last() =~= views(parts@).take(i as int));
        assert(res@ =~= joined(views(parts@).take(i + 1), seq![]));
        i = i + 1;
    }
    assert(views(parts@).take(parts.len() as int) =~= views(parts@));
    res
}

/// A line as `BufRead::lines` hands it out: without its line feed, and without the
/// carriage return that precedes that line feed.
pub open spec fn strip_cr(l: Seq<u8>) -> Seq<u8> {
    if l.len() > 0 && l.last() == 13 {
        l.drop_last()
    } else {
        l
    }
}

/// The lines of `b[start..]` when the scan stands at `i`: pieces ended by a line feed, and a
/// last piece without one if it is not empty.
pub open spec fn lines_at(b: Seq<u8>, start: int, i: int) -> Seq<Seq<u8>>
    decreases b.len() - i,
{
    if i >= b.len() || i < start || start < 0 {
        if start < b.len() {
            seq![b.subrange(start, b.len() as int)]
        } else {
            seq![]
        }
    } else if b[i] == 10 {
        seq![strip_cr(b.subrange(start, i))] + lines_at(b, i + 1, i + 1)
    } else {
        lines_at(b, start, i + 1)
    }
}

/// The lines of `b`, as `BufRead::lines` reads them from a reader over `b`.
pub open spec fn byte_lines(b: Seq<u8>) -> Seq<Seq<u8>> {
    lines_at(b, 0, 0)
}

/// A line read as text: `None` where it is not valid UTF-8.
pub open spec fn line_text(l: Seq<u8>) -> Option<Seq<char>> {
    if valid_utf8(l) {
        Some(decode_utf8(l))
    } else {
        None
    }
}

pub open spec fn opt_views(v: Seq<Option<String>>) -> Seq<Option<Seq<char>>> {
    v.map_values(
        |o: Option<String>|
            match o {
                Some(s) => Some(s@),
                None => None,
            },
    )
}

/// The lines of `bytes` read as text, one entry per line, as `BufRead::lines` yields them:
/// `None` for a line that is not valid UTF-8.
pub fn text_lines(bytes: &[u8]) -> (res: Vec<Option<String>>)
    ensures
        opt_views(res@) == byte_lines(bytes@).map_values(|l: Seq<u8>| line_text(l)),
{
    let n = bytes.len();
    let mut res: Vec<Option<String>> = Vec::new();
    let mut start: usize = 0;
    let mut i: usize = 0;
    while i < n
        invariant
            n == bytes@.len(),
            start <= i <= n,
            opt_views(res@) + lines_at(bytes@, start as int, i as int).map_values(
                |l: Seq<u8>| line_text(l),
            ) == byte_lines(bytes@).map_values(|l: Seq<u8>| line_text(l)),
        decreases n - i,
    {
        if bytes[i] == 10u8 {
            let end = if i > start && bytes[i - 1] == 13u8 {
                i - 1
            } else {
                i
            };
            let line = &bytes[start..end];
            assert(line@ =~= strip_cr(bytes@.subrange(start as int, i as int)));
            let text = match utf8_text(line) {
                Some(t) => Some(t.to_owned()),
                None => None,
            };
            let ghost prev = opt_views(res@);
            let ghost rest = lines_at(bytes@, i + 1, i + 1);
            res.push(text);
            assert(opt_views(res@) =~= prev.push(line_text(line@)));
            assert(lines_at(bytes@, start as int, i as int) == seq![line@] + rest);
            assert((seq![line@] + rest).map_values(|l: Seq<u8>| line_text(l)) =~= seq![
                line_text(line@),
            ] + rest.map_values(|l: Seq<u8>| line_text(l)));
            start = i + 1;
        }
        i = i + 1;
    }
    if start < n {
        let line = &bytes[start..n];
        let text = match utf8_text(line) {
            Some(t) => Some(t.to_owned()),
            None => None,
        };
        let ghost prev = opt_views(res@);
        res.push(text);
        assert(opt_views(res@) =~= prev.push(line_text(line@)));
        assert(seq![line@].map_values(|l: Seq<u8>| line_text(l)) =~= seq![line_text(line@)]);
    } else {
        assert(lines_at(bytes@, start as int, i as int).map_values(|l: Seq<u8>| line_text(l))
            =~= Seq::<Option<Seq<char>>>::empty());
    }
    assert(opt_views(res@) =~= byte_lines(bytes@).map_values(|l: Seq<u8>| line_text(l)));
    res
}

} // verus!
