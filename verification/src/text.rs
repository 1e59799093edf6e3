//! Character-level helpers on strings, each with an exact specification.
use vstd::prelude::*;

verus! {

/// The characters that carry the Unicode `White_Space` property, which is
/// what `char::is_whitespace` and `str::trim_end` go by.
pub open spec fn is_white_space(c: char) -> bool {
    ||| c == '\t'
    ||| c == '\n'
    ||| c == '\x0B'
    ||| c == '\x0C'
    ||| c == '\r'
    ||| c == ' '
    ||| c == '\u{85}'
    ||| c == '\u{A0}'
    ||| c == '\u{1680}'
    ||| ('\u{2000}' <= c && c <= '\u{200A}')
    ||| c == '\u{2028}'
    ||| c == '\u{2029}'
    ||| c == '\u{202F}'
    ||| c == '\u{205F}'
    ||| c == '\u{3000}'
}

/// `s` without its trailing white space.
pub open spec fn trimmed_end(s: Seq<char>) -> Seq<char>
    decreases s.len(),
{
    if s.len() > 0 && is_white_space(s.last()) {
        trimmed_end(s.drop_last())
    } else {
        s
    }
}

/// The number of characters before the first line feed of `s` (all of them
/// when there is none).
pub open spec fn line_len(s: Seq<char>) -> nat
    decreases s.len(),
{
    if s.len() == 0 {
        0
    } else if s[0] == '\n' {
        0
    } else {
        1 + line_len(s.drop_first())
    }
}

/// The first line of `s`, without its line feed.
pub open spec fn first_line(s: Seq<char>) -> Seq<char> {
    s.take(line_len(s) as int)
}

/// The pieces of `s` between single spaces, as `str::split(" ")` yields them:
/// two spaces in a row give an empty piece, and there is always one piece
/// more than there are spaces.
pub open spec fn split_spaces(s: Seq<char>) -> Seq<Seq<char>>
    decreases s.len(),
{
    if s.len() == 0 {
        seq![Seq::<char>::empty()]
    } else {
        let init = split_spaces(s.drop_last());
        if s.last() == ' ' {
            init.push(Seq::<char>::empty())
        } else {
            init.update(init.len() - 1, init.last().push(s.last()))
        }
    }
}

/// `c` with an ASCII capital letter mapped to its small letter, as a code point.
pub open spec fn ascii_lower_code(c: char) -> u32 {
    if 'A' <= c && c <= 'Z' {
        (c as u32 + 32) as u32
    } else {
        c as u32
    }
}

/// `a` and `b` are equal when ASCII letters are compared without case, as
/// `str::eq_ignore_ascii_case` compares them.
pub open spec fn eq_ignore_ascii_case(a: Seq<char>, b: Seq<char>) -> bool {
    &&& a.len() == b.len()
    &&& forall|i: int| 0 <= i < a.len() ==> ascii_lower_code(#[trigger] a[i]) == ascii_lower_code(b[i])
}

pub proof fn lemma_split_spaces_nonempty(s: Seq<char>)
    ensures
        split_spaces(s).len() >= 1,
    decreases s.len(),
{
    if s.len() > 0 {
        lemma_split_spaces_nonempty(s.drop_last());
    }
}

proof fn lemma_line_len(s: Seq<char>, i: int)
    requires
        0 <= i <= s.len(),
        forall|j: int| 0 <= j < i ==> s[j] != '\n',
        i == s.len() || s[i] == '\n',
    ensures
        line_len(s) == i,
    decreases i,
{
    if i > 0 {
        let t = s.drop_first();
        assert forall|j: int| 0 <= j < i - 1 implies t[j] != '\n' by {
            assert(t[j] == s[j + 1]);
        }
        if i < s.len() {
            assert(t[i - 1] == s[i]);
        }
        lemma_line_len(t, i - 1);
    }
}

/// The pieces `parts` joined with single spaces between them.
pub open spec fn join_spaces(parts: Seq<Seq<char>>) -> Seq<char>
    decreases parts.len(),
{
    if parts.len() <= 1 {
        if parts.len() == 1 { parts[0] } else { Seq::<char>::empty() }
    } else {
        join_spaces(parts.drop_last()) + seq![' '] + parts.last()
    }
}

/// Splitting at single spaces loses nothing: the pieces joined with single
/// spaces give back the text.
pub proof fn law_split_join(s: Seq<char>)
    ensures
        join_spaces(split_spaces(s)) == s,
    decreases s.len(),
{
    if s.len() > 0 {
        let init = split_spaces(s.drop_last());
        law_split_join(s.drop_last());
        lemma_split_spaces_nonempty(s.drop_last());
        if s.last() == ' ' {
            let parts = init.push(Seq::<char>::empty());
            assert(parts.drop_last() =~= init);
            assert(s =~= s.drop_last() + seq![' '] + Seq::<char>::empty());
        } else {
            let parts = init.update(init.len() - 1, init.last().push(s.last()));
            if init.len() == 1 {
                assert(s =~= init[0].push(s.last()));
            } else {
                assert(parts.drop_last() =~= init.drop_last());
                assert(join_spaces(parts) =~= join_spaces(init.drop_last()) + seq![' '] + init.last().push(s.last()));
                assert(s =~= s.drop_last().push(s.last()));
            }
        }
    }
}

/// No piece of a split holds a space: every space of the text is a cut.
/// With `law_split_join` this pins the pieces to what `str::split(" ")` gives.
pub proof fn law_split_pieces_hold_no_space(s: Seq<char>)
    ensures
        forall|k: int| 0 <= k < split_spaces(s).len() ==> !(#[trigger] split_spaces(s)[k]).contains(' '),
    decreases s.len(),
{
    if s.len() > 0 {
        let init = split_spaces(s.drop_last());
        law_split_pieces_hold_no_space(s.drop_last());
        lemma_split_spaces_nonempty(s.drop_last());
        if s.last() == ' ' {
            let parts = init.push(Seq::<char>::empty());
            assert forall|k: int| 0 <= k < parts.len() implies !(#[trigger] parts[k]).contains(' ') by {
                if k < init.len() {
                    assert(parts[k] == init[k]);
                } else {
                    assert(parts[k] =~= Seq::<char>::empty());
                }
            }
        } else {
            let last = init.last().push(s.last());
            let parts = init.update(init.len() - 1, last);
            assert(!init[init.len() - 1].contains(' '));
            assert forall|k: int| 0 <= k < parts.len() implies !(#[trigger] parts[k]).contains(' ') by {
                if k < init.len() - 1 {
                    assert(parts[k] == init[k]);
                } else {
                    assert(parts[k] == last);
                    assert forall|i: int| 0 <= i < last.len() implies last[i] != ' ' by {
                        if i < init.last().len() {
                            assert(last[i] == init.last()[i]);
                        }
                    }
                }
            }
        }
    }
}

/// Among ASCII characters exactly the space and the control characters from
/// tab to carriage return are white space; letters, digits and punctuation
/// never are.
pub proof fn law_ascii_white_space(c: char)
    requires
        (c as u32) < 128,
    ensures
        is_white_space(c) <==> (c == ' ' || ('\t' <= c && c <= '\r')),
{
}

/// Trimming keeps a text whose last character is an ASCII letter or digit
/// whole: only white space is ever cut off.
pub proof fn law_trim_keeps_visible_end(s: Seq<char>)
    requires
        s.len() > 0,
        ('0' <= s.last() && s.last() <= '9') || ('a' <= s.last() && s.last() <= 'z') || ('A' <= s.last()
            && s.last() <= 'Z'),
    ensures
        trimmed_end(s) == s,
{
    law_ascii_white_space(s.last());
}

proof fn lemma_trimmed_end_prefix(s: Seq<char>)
    ensures
        trimmed_end(s).len() <= s.len(),
        trimmed_end(s) == s.take(trimmed_end(s).len() as int),
        trimmed_end(s).len() > 0 ==> !is_white_space(trimmed_end(s).last()),
    decreases s.len(),
{
    if s.len() > 0 && is_white_space(s.last()) {
        lemma_trimmed_end_prefix(s.drop_last());
        assert(s.drop_last().take(trimmed_end(s).len() as int) =~= s.take(trimmed_end(s).len() as int));
    } else {
        assert(s.take(s.len() as int) =~= s);
    }
}

proof fn lemma_line_len_bounds(s: Seq<char>)
    ensures
        line_len(s) <= s.len(),
        forall|j: int| 0 <= j < line_len(s) ==> s[j] != '\n',
    decreases s.len(),
{
    if s.len() > 0 && s[0] != '\n' {
        let t = s.drop_first();
        lemma_line_len_bounds(t);
        assert forall|j: int| 0 <= j < line_len(s) implies s[j] != '\n' by {
            if j > 0 {
                assert(s[j] == t[j - 1]);
            }
        }
    }
}

/// The password read from a command's output is one line: it holds no line
/// feed and does not end in white space.
pub proof fn law_trimmed_line(s: Seq<char>)
    ensures
        !trimmed_end(first_line(s)).contains('\n'),
        trimmed_end(first_line(s)).len() > 0 ==> !is_white_space(trimmed_end(first_line(s)).last()),
        trimmed_end(first_line(s)) == s.take(trimmed_end(first_line(s)).len() as int),
{
    let l = first_line(s);
    lemma_line_len_bounds(s);
    lemma_trimmed_end_prefix(l);
    let t = trimmed_end(l);
    assert forall|j: int| 0 <= j < t.len() implies t[j] != '\n' by {
        assert(t[j] == l[j]);
        assert(l[j] == s[j]);
    }
    assert(s.take(line_len(s) as int).take(t.len() as int) =~= s.take(t.len() as int));
}

/// The characters of `s`, in order.
pub fn chars_of(s: &str) -> (v: Vec<char>)
    ensures
        v@ == s@,
{
    let mut v: Vec<char> = Vec::new();
    for c in it: s.chars()
        invariant
            v@ == it.seq().take(it.index() as int),
            it.seq() == s@,
    {
        v.push(c);
    }
    v
}

/// Whether `c` is white space (see `is_white_space`).
pub fn is_white_space_char(c: char) -> (r: bool)
    ensures
        r == is_white_space(c),
        (c as u32) < 128 ==> (r <==> (c == ' ' || ('\t' <= c && c <= '\r'))),
{
    c == '\t' || c == '\n' || c == '\x0B' || c == '\x0C' || c == '\r' || c == ' ' || c == '\u{85}'
        || c == '\u{A0}' || c == '\u{1680}' || ('\u{2000}' <= c && c <= '\u{200A}') || c
        == '\u{2028}' || c == '\u{2029}' || c == '\u{202F}' || c == '\u{205F}' || c == '\u{3000}'
}

/// The characters of `s` from position `from` up to, not including, `to`.
pub fn substring(s: &str, from: usize, to: usize) -> (r: String)
    requires
        from <= to <= s@.len(),
    ensures
        r@ == s@.subrange(from as int, to as int),
{
    s.substring_char(from, to).to_owned()
}

/// The first line of `s` with trailing white space removed: what
/// `s.lines().next()` followed by `trim_end` gives for a non-empty `s`.
pub fn first_line_trimmed(s: &str) -> (r: String)
    ensures
        r@ == trimmed_end(first_line(s@)),
{
    let v = chars_of(s);
    let n = v.len();
    let mut i: usize = 0;
    while i < n && v[i] != '\n'
        invariant
            n == v@.len(),
            v@ == s@,
            i <= n,
            forall|j: int| 0 <= j < i ==> v@[j] != '\n',
        decreases n - i,
    {
        i = i + 1;
    }
    proof {
        lemma_line_len(s@, i as int);
    }
    let mut end: usize = i;
    while end > 0 && is_white_space_char(v[end - 1])
        invariant
            end <= i <= n,
            n == v@.len(),
            v@ == s@,
            line_len(s@) == i,
            trimmed_end(first_line(s@)) == trimmed_end(s@.take(end as int)),
        decreases end,
    {
        assert(s@.take(end as int).drop_last() =~= s@.take(end - 1));
        end = end - 1;
    }
    assert(s@.take(i as int).take(end as int) =~= s@.take(end as int));
    substring(s, 0, end)
}

/// The pieces of `s` between single spaces (see `split_spaces`).
pub fn split_on_spaces(s: &str) -> (r: Vec<String>)
    ensures
        r@.len() >= 1,
        r@.len() == split_spaces(s@).len(),
        forall|k: int| 0 <= k < r@.len() ==> #[trigger] r@[k]@ == split_spaces(s@)[k],
        forall|k: int| 0 <= k < r@.len() ==> !(#[trigger] r@[k]@).contains(' '),
{
    let v = chars_of(s);
    let n = v.len();
    let mut pieces: Vec<String> = Vec::new();
    let mut start: usize = 0;
    let mut i: usize = 0;
    while i < n
        invariant
            n == v@.len(),
            v@ == s@,
            start <= i <= n,
            pieces@.len() + 1 == split_spaces(s@.take(i as int)).len(),
            forall|k: int| 0 <= k < pieces@.len() ==> #[trigger] pieces@[k]@ == split_spaces(s@.take(i as int))[k],
            s@.subrange(start as int, i as int) == split_spaces(s@.take(i as int)).last(),
        decreases n - i,
    {
        let ghost prev = s@.take(i as int);
        proof {
            lemma_split_spaces_nonempty(prev);
            assert(s@.take(i + 1).drop_last() =~= prev);
            assert(s@.take(i + 1).last() == s@[i as int]);
        }
        if v[i] == ' ' {
            let piece = substring(s, start, i);
            pieces.push(piece);
            start = i + 1;
            assert(s@.subrange(start as int, i + 1) =~= Seq::<char>::empty());
        } else {
            assert(s@.subrange(start as int, i + 1) =~= s@.subrange(start as int, i as int).push(s@[i as int]));
        }
        i = i + 1;
    }
    let last = substring(s, start, n);
    pieces.push(last);
    proof {
        assert(s@.take(n as int) =~= s@);
        lemma_split_spaces_nonempty(s@);
        law_split_pieces_hold_no_space(s@);
    }
    pieces
}

/// Whether `a` and `b` are equal up to the case of ASCII letters.
pub fn eq_ignore_case(a: &str, b: &str) -> (r: bool)
    ensures
        r == eq_ignore_ascii_case(a@, b@),
{
    let va = chars_of(a);
    let vb = chars_of(b);
    if va.len() != vb.len() {
        return false;
    }
    let n = va.len();
    for i in 0..n
        invariant
            n == va@.len(),
            n == vb@.len(),
            va@ == a@,
            vb@ == b@,
            forall|j: int| 0 <= j < i ==> ascii_lower_code(#[trigger] va@[j]) == ascii_lower_code(vb@[j]),
    {
        if lower_code(va[i]) != lower_code(vb[i]) {
            return false;
        }
    }
    true
}

fn lower_code(c: char) -> (r: u32)
    ensures
        r == ascii_lower_code(c),
{
    if 'A' <= c && c <= 'Z' {
        c as u32 + 32
    } else {
        c as u32
    }
}

/// `a` followed by `b`.
pub fn append_str(a: &str, b: &str) -> (r: String)
    ensures
        r@ == a@ + b@,
{
    let mut r = String::from_str(a);
    r.append(b);
    r
}

} // verus!
