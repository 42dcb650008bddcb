use unicode_width::UnicodeWidthChar;
use unicode_width::UnicodeWidthStr;
use vstd::prelude::*;

verus! {

broadcast use vstd::string::group_string_axioms;

/// What `UnicodeWidthChar::width` of the `unicode-width` crate returns for a
/// character: its display width in columns, or `None` for a control character.
pub uninterp spec fn char_width_of(c: char) -> Option<usize>;

/// What `UnicodeWidthStr::width` of the `unicode-width` crate returns for a
/// string: its display width in columns.
pub uninterp spec fn str_width_of(s: Seq<char>) -> usize;

/// Calls `UnicodeWidthChar::width` of `unicode-width` on `c`.
/// Claimed: the result is the named width of `c`; it is `None` exactly for the
/// control characters below U+0020 and from U+007F to U+009F, and it is one
/// column for the printable ASCII characters (the crate's source decides these
/// cases before any table lookup). Not claimed: the width of other characters,
/// which the crate reads from its Unicode tables.
#[verifier::external_body]
fn char_display_width(c: char) -> (r: Option<usize>)
    ensures
        r == char_width_of(c),
        r is None <==> ((c as int) < 0x20 || (0x7f <= (c as int) && (c as int) < 0xa0)),
        (0x20 <= (c as int) && (c as int) < 0x7f) ==> r == Some(1usize),
{
    UnicodeWidthChar::width(c)
}

/// Calls `UnicodeWidthStr::width` of `unicode-width` on `s`.
/// Claimed: the result is the named width of `s`'s characters. Not claimed:
/// how the crate sums the widths (it treats some character sequences, such as
/// emoji sequences, as a unit).
#[verifier::external_body]
pub(crate) fn str_display_width(s: &str) -> (r: usize)
    ensures
        r == str_width_of(s@),
{
    UnicodeWidthStr::width(s)
}

/// Calls `String::push` of std: the character is appended.
#[verifier::external_body]
pub(crate) fn push_char(s: &mut String, c: char)
    ensures
        final(s)@ == old(s)@.push(c),
{
    s.push(c)
}

/// The columns a character takes when a line is wrapped: its display width,
/// with a control character counted as zero.
pub open spec fn shown_width(c: char) -> nat {
    match char_width_of(c) {
        Some(w) => w as nat,
        None => 0,
    }
}

/// The columns a sequence of characters takes: the sum of their shown widths.
pub open spec fn seq_width(s: Seq<char>) -> nat
    decreases s.len(),
{
    if s.len() == 0 {
        0
    } else {
        seq_width(s.drop_last()) + shown_width(s.last())
    }
}

/// The characters of the pieces, one piece after another.
pub open spec fn flatten(pieces: Seq<Seq<char>>) -> Seq<char>
    decreases pieces.len(),
{
    if pieces.len() == 0 {
        Seq::empty()
    } else {
        flatten(pieces.drop_last()) + pieces.last()
    }
}

/// The texts of a vector of strings.
pub open spec fn texts(v: Seq<String>) -> Seq<Seq<char>> {
    v.map_values(|s: String| s@)
}

/// `pieces` is the greedy wrapping of `s` into lines of at most `width`
/// columns: read one after another they give back `s`; none is empty; each
/// fits in `width` columns unless it is a single character; and each but the
/// last would overflow `width` if the first character of the next piece were
/// added to it.
#[verifier::opaque]
pub open spec fn is_wrapping(pieces: Seq<Seq<char>>, s: Seq<char>, width: nat) -> bool {
    &&& flatten(pieces) == s
    &&& forall|i: int| 0 <= i < pieces.len() ==> #[trigger] pieces[i].len() > 0
    &&& forall|i: int|
        0 <= i < pieces.len() ==> seq_width(#[trigger] pieces[i]) <= width || pieces[i].len() == 1
    &&& forall|i: int|
        0 <= i < pieces.len() - 1 ==> seq_width(#[trigger] pieces[i]) + shown_width(
            pieces[i + 1][0],
        ) > width
}

proof fn lemma_flatten_push(pieces: Seq<Seq<char>>, p: Seq<char>)
    ensures
        flatten(pieces.push(p)) == flatten(pieces) + p,
{
    assert(pieces.push(p).drop_last() =~= pieces);
}

proof fn lemma_width_push(s: Seq<char>, c: char)
    ensures
        seq_width(s.push(c)) == seq_width(s) + shown_width(c),
{
    assert(s.push(c).drop_last() =~= s);
}

proof fn lemma_flatten_front(pieces: Seq<Seq<char>>)
    requires
        pieces.len() > 0,
    ensures
        flatten(pieces) == pieces[0] + flatten(pieces.drop_first()),
    decreases pieces.len(),
{
    if pieces.len() == 1 {
        assert(pieces.drop_last() =~= Seq::<Seq<char>>::empty());
        assert(pieces.drop_first() =~= Seq::<Seq<char>>::empty());
        assert(flatten(pieces) =~= pieces[0] + flatten(pieces.drop_first()));
    } else {
        lemma_flatten_front(pieces.drop_last());
        assert(pieces.drop_last().drop_first() =~= pieces.drop_first().drop_last());
        assert(pieces.drop_first().last() == pieces.last());
        assert(flatten(pieces) =~= pieces[0] + flatten(pieces.drop_first()));
    }
}

proof fn lemma_width_take_step(s: Seq<char>, k: int)
    requires
        0 <= k < s.len(),
    ensures
        seq_width(s.take(k + 1)) == seq_width(s.take(k)) + shown_width(s[k]),
{
    assert(s.take(k + 1).drop_last() =~= s.take(k));
}

proof fn lemma_width_prefix(s: Seq<char>, j: int)
    requires
        0 <= j <= s.len(),
    ensures
        seq_width(s.take(j)) <= seq_width(s),
    decreases s.len() - j,
{
    if j < s.len() {
        lemma_width_take_step(s, j);
        lemma_width_prefix(s, j + 1);
    } else {
        assert(s.take(j) =~= s);
    }
}

proof fn lemma_wrapping_tail(pieces: Seq<Seq<char>>, s: Seq<char>, width: nat)
    requires
        is_wrapping(pieces, s, width),
        pieces.len() > 0,
    ensures
        pieces[0].len() > 0,
        s == pieces[0] + s.skip(pieces[0].len() as int),
        is_wrapping(pieces.drop_first(), s.skip(pieces[0].len() as int), width),
{
    reveal(is_wrapping);
    lemma_flatten_front(pieces);
    let t = pieces.drop_first();
    assert(s.skip(pieces[0].len() as int) =~= flatten(t));
    assert forall|i: int| 0 <= i < t.len() implies #[trigger] t[i].len() > 0 by {
        assert(t[i] == pieces[i + 1]);
    }
    assert forall|i: int| 0 <= i < t.len() implies seq_width(#[trigger] t[i]) <= width
        || t[i].len() == 1 by {
        assert(t[i] == pieces[i + 1]);
    }
    assert forall|i: int| 0 <= i < t.len() - 1 implies seq_width(#[trigger] t[i]) + shown_width(
        t[i + 1][0],
    ) > width by {
        assert(t[i] == pieces[i + 1]);
        assert(t[i + 1] == pieces[i + 2]);
    }
}

/// Wrapping is determined: a text has exactly one wrapping into lines of a
/// given width, so the lines that `wrap_to_width` returns are the only ones
/// its contract allows.
pub proof fn lemma_wrapping_unique(a: Seq<Seq<char>>, b: Seq<Seq<char>>, s: Seq<char>, width: nat)
    requires
        is_wrapping(a, s, width),
        is_wrapping(b, s, width),
    ensures
        a == b,
    decreases s.len(),
{
    lemma_no_pieces_only_for_empty(a, s, width);
    lemma_no_pieces_only_for_empty(b, s, width);
    if a.len() == 0 {
        assert(a =~= b);
    } else {
        lemma_same_first_piece(a, b, s, width);
        let k = a[0].len() as int;
        lemma_wrapping_tail(a, s, width);
        lemma_wrapping_tail(b, s, width);
        lemma_wrapping_unique(a.drop_first(), b.drop_first(), s.skip(k), width);
        assert(a.drop_first() == b.drop_first());
        assert(a.drop_first().len() == b.drop_first().len());
        assert(a.len() == b.len());
        assert(a =~= b) by {
            assert forall|i: int| 0 <= i < a.len() implies a[i] == b[i] by {
                if i > 0 {
                    assert(a[i] == a.drop_first()[i - 1]);
                    assert(b[i] == b.drop_first()[i - 1]);
                }
            }
        }
    }
}

/// A wrapping has no pieces exactly when the text is empty.
proof fn lemma_no_pieces_only_for_empty(pieces: Seq<Seq<char>>, s: Seq<char>, width: nat)
    requires
        is_wrapping(pieces, s, width),
    ensures
        pieces.len() == 0 <==> s.len() == 0,
{
    reveal(is_wrapping);
    if pieces.len() > 0 {
        lemma_flatten_front(pieces);
        assert(pieces[0].len() > 0);
    } else {
        assert(flatten(pieces) =~= Seq::<char>::empty());
    }
}

/// Two wrappings of one text begin with the same piece.
proof fn lemma_same_first_piece(a: Seq<Seq<char>>, b: Seq<Seq<char>>, s: Seq<char>, width: nat)
    requires
        is_wrapping(a, s, width),
        is_wrapping(b, s, width),
        a.len() > 0,
        b.len() > 0,
    ensures
        a[0] == b[0],
{
    reveal(is_wrapping);
    lemma_first_pieces_agree(a, b, s, width);
    lemma_first_pieces_agree(b, a, s, width);
    lemma_flatten_front(a);
    lemma_flatten_front(b);
    assert(a[0] =~= s.take(a[0].len() as int));
    assert(b[0] =~= s.take(b[0].len() as int));
}

/// The first piece of a wrapping is at least as long as the first piece of
/// any other wrapping of the same text.
proof fn lemma_first_pieces_agree(a: Seq<Seq<char>>, b: Seq<Seq<char>>, s: Seq<char>, width: nat)
    requires
        is_wrapping(a, s, width),
        is_wrapping(b, s, width),
        a.len() > 0,
        b.len() > 0,
    ensures
        a[0].len() >= b[0].len(),
{
    reveal(is_wrapping);
    if a[0].len() < b[0].len() {
        lemma_wrapping_tail(a, s, width);
        lemma_wrapping_tail(b, s, width);
        let k = a[0].len() as int;
        assert(a[0] =~= s.take(k));
        assert(b[0] =~= s.take(b[0].len() as int));
        assert(k < s.len());
        if a.len() == 1 {
            lemma_flatten_front(a);
            assert(a.drop_first() =~= Seq::<Seq<char>>::empty());
            assert(s =~= a[0]);
        } else {
            let rest = a.drop_first();
            lemma_flatten_front(rest);
            assert(rest[0].len() > 0);
            assert(a[1] == rest[0]);
            assert(a[1][0] == s[k]);
            assert(seq_width(a[0]) + shown_width(a[1][0]) > width);
            lemma_width_take_step(s, k);
            assert(b[0].take(k + 1) =~= s.take(k + 1));
            lemma_width_prefix(b[0], k + 1);
            assert(seq_width(b[0]) > width);
            assert(b[0].len() > 1);
        }
    }
}

/// A wrapping of `t` extended by a character that fits on its last line.
proof fn lemma_wrapping_extend_last(p: Seq<Seq<char>>, t: Seq<char>, c: char, width: nat)
    requires
        is_wrapping(p, t, width),
        p.len() > 0,
        seq_width(p.last()) + shown_width(c) <= width,
    ensures
        is_wrapping(p.update(p.len() - 1, p.last().push(c)), t.push(c), width),
{
    reveal(is_wrapping);
    let n = p.len() - 1;
    let l = p.last();
    let q = p.update(n, l.push(c));
    lemma_width_push(l, c);
    assert(q.drop_last() =~= p.drop_last());
    assert(q.last() == l.push(c));
    assert(flatten(q) == flatten(q.drop_last()) + q.last());
    assert(flatten(p) == flatten(p.drop_last()) + l);
    assert(flatten(q) =~= t.push(c));
    assert forall|i: int| 0 <= i < q.len() implies #[trigger] q[i].len() > 0 by {
        if i < n {
            assert(q[i] == p[i]);
        }
    }
    assert forall|i: int| 0 <= i < q.len() implies seq_width(#[trigger] q[i]) <= width || q[i].len()
        == 1 by {
        if i < n {
            assert(q[i] == p[i]);
        }
    }
    assert forall|i: int| 0 <= i < q.len() - 1 implies seq_width(#[trigger] q[i]) + shown_width(
        q[i + 1][0],
    ) > width by {
        assert(q[i] == p[i]);
        if i + 1 < n {
            assert(q[i + 1] == p[i + 1]);
        } else {
            assert(q[i + 1][0] == p[i + 1][0]);
        }
    }
}

/// A wrapping of `t` followed by a character that starts a new line.
proof fn lemma_wrapping_new_line(p: Seq<Seq<char>>, t: Seq<char>, c: char, width: nat)
    requires
        is_wrapping(p, t, width),
        p.len() > 0 ==> seq_width(p.last()) + shown_width(c) > width,
    ensures
        is_wrapping(p.push(seq![c]), t.push(c), width),
{
    reveal(is_wrapping);
    let q = p.push(seq![c]);
    lemma_flatten_push(p, seq![c]);
    assert(flatten(p) + seq![c] =~= t.push(c));
    assert forall|i: int| 0 <= i < q.len() implies #[trigger] q[i].len() > 0 by {
        if i < p.len() {
            assert(q[i] == p[i]);
        }
    }
    assert forall|i: int| 0 <= i < q.len() implies seq_width(#[trigger] q[i]) <= width || q[i].len()
        == 1 by {
        if i < p.len() {
            assert(q[i] == p[i]);
        }
    }
    assert forall|i: int| 0 <= i < q.len() - 1 implies seq_width(#[trigger] q[i]) + shown_width(
        q[i + 1][0],
    ) > width by {
        assert(q[i] == p[i]);
        if i + 1 < p.len() {
            assert(q[i + 1] == p[i + 1]);
        }
    }
}

/// Every text has a wrapping into lines of any width (built one character at a
/// time: a character joins the last line when it fits there, and starts a new
/// line otherwise).
pub proof fn lemma_wrapping_exists(s: Seq<char>, width: nat)
    ensures
        exists|p: Seq<Seq<char>>| is_wrapping(p, s, width),
    decreases s.len(),
{
    if s.len() == 0 {
        let p = Seq::<Seq<char>>::empty();
        reveal(is_wrapping);
        assert(flatten(p) =~= s);
        assert(is_wrapping(p, s, width));
    } else {
        let t = s.drop_last();
        let c = s.last();
        assert(t.push(c) =~= s);
        lemma_wrapping_exists(t, width);
        let p = choose|p: Seq<Seq<char>>| is_wrapping(p, t, width);
        if p.len() > 0 && seq_width(p.last()) + shown_width(c) <= width {
            lemma_wrapping_extend_last(p, t, c, width);
        } else {
            lemma_wrapping_new_line(p, t, c, width);
        }
    }
}

/// A non-empty text that fits in the width is wrapped into one line, itself.
pub proof fn lemma_fitting_text_is_one_line(pieces: Seq<Seq<char>>, s: Seq<char>, width: nat)
    requires
        is_wrapping(pieces, s, width),
        s.len() > 0,
        seq_width(s) <= width,
    ensures
        pieces == seq![s],
{
    reveal(is_wrapping);
    let one = seq![s];
    assert(one.drop_last() =~= Seq::<Seq<char>>::empty());
    assert(flatten(one.drop_last()) =~= Seq::<char>::empty());
    assert(flatten(one) =~= s);
    assert(is_wrapping(one, s, width));
    lemma_wrapping_unique(pieces, one, s, width);
}

/// An empty text has no lines.
pub proof fn lemma_empty_text_has_no_lines(pieces: Seq<Seq<char>>, width: nat)
    requires
        is_wrapping(pieces, Seq::empty(), width),
    ensures
        pieces.len() == 0,
{
    reveal(is_wrapping);
    assert(flatten(Seq::<Seq<char>>::empty()) =~= Seq::<char>::empty());
    lemma_wrapping_unique(pieces, Seq::empty(), Seq::empty(), width);
}

/// Splits `content` into the pieces that fit in `width` columns, taking
/// characters greedily: a character goes to the current piece unless the piece
/// is not empty and the character would take it past `width`.
pub fn wrap_to_width(content: &str, width: usize) -> (pieces: Vec<String>)
    ensures
        is_wrapping(texts(pieces@), content@, width as nat),
{
    let mut pieces: Vec<String> = Vec::new();
    let mut cur = String::new();
    let mut cur_w: usize = 0;
    let ghost s = content@;
    for ch in it: content.chars()
        invariant
            it.seq() == s,
            s == content@,
            ({
                let done = texts(pieces@);
                &&& flatten(done) + cur@ == s.take(it.index() as int)
                &&& forall|i: int| 0 <= i < done.len() ==> #[trigger] done[i].len() > 0
                &&& forall|i: int|
                    0 <= i < done.len() ==> seq_width(#[trigger] done[i]) <= width
                        || done[i].len() == 1
                &&& forall|i: int|
                    0 <= i < done.len() - 1 ==> seq_width(#[trigger] done[i]) + shown_width(
                        done[i + 1][0],
                    ) > width
                &&& done.len() > 0 ==> cur@.len() > 0 && seq_width(done.last()) + shown_width(
                    cur@[0],
                ) > width
            }),
            cur_w == seq_width(cur@),
            seq_width(cur@) <= width || cur@.len() == 1,
            it.index() > 0 ==> cur@.len() > 0,
    {
        let w: usize = match char_display_width(ch) {
            Some(w) => w,
            None => 0,
        };
        assert(w == shown_width(ch));
        let ghost before = texts(pieces@);
        let overflows = cur_w > width || w > width - cur_w;
        if overflows && !cur.as_str().is_empty() {
            let full = cur;
            proof {
                lemma_flatten_push(before, full@);
            }
            pieces.push(full);
            assert(texts(pieces@) =~= before.push(full@));
            cur = String::new();
            cur_w = 0;
        }
        proof {
            lemma_width_push(cur@, ch);
        }
        push_char(&mut cur, ch);
        cur_w = cur_w + w;
        assert(s.take(it.index() + 1) =~= s.take(it.index() as int).push(ch));
    }
    if !cur.as_str().is_empty() {
        let ghost before = texts(pieces@);
        proof {
            lemma_flatten_push(before, cur@);
        }
        pieces.push(cur);
        assert(texts(pieces@) =~= before.push(cur@));
    }
    assert(s.take(s.len() as int) =~= s);
    reveal(is_wrapping);
    pieces
}

/// The characters with the Unicode White_Space property, the ones that
/// `char::is_whitespace` of std accepts and `str::trim` removes.
pub open spec fn is_white_space(c: char) -> bool {
    let n = c as int;
    ||| 0x09 <= n <= 0x0d
    ||| n == 0x20
    ||| n == 0x85
    ||| n == 0xa0
    ||| n == 0x1680
    ||| 0x2000 <= n <= 0x200a
    ||| n == 0x2028
    ||| n == 0x2029
    ||| n == 0x202f
    ||| n == 0x205f
    ||| n == 0x3000
}

/// Whether `c` has the Unicode White_Space property.
pub fn white_space(c: char) -> (r: bool)
    ensures
        r == is_white_space(c),
{
    let n: u32 = c as u32;
    (0x09 <= n && n <= 0x0d) || n == 0x20 || n == 0x85 || n == 0xa0 || n == 0x1680 || (0x2000 <= n
        && n <= 0x200a) || n == 0x2028 || n == 0x2029 || n == 0x202f || n == 0x205f || n == 0x3000
}

/// `s` without its leading and trailing white space, as `str::trim` gives it.
pub open spec fn trimmed(s: Seq<char>) -> Seq<char>
    decreases s.len(),
{
    if s.len() > 0 && is_white_space(s[0]) {
        trimmed(s.drop_first())
    } else if s.len() > 0 && is_white_space(s.last()) {
        trimmed(s.drop_last())
    } else {
        s
    }
}

/// A text is blank when nothing but white space is in it.
pub open spec fn is_blank(s: Seq<char>) -> bool {
    trimmed(s).len() == 0
}

proof fn lemma_trimmed_range(s: Seq<char>, i: int, j: int)
    requires
        0 <= i <= j <= s.len(),
        forall|k: int| 0 <= k < i ==> is_white_space(#[trigger] s[k]),
        forall|k: int| j <= k < s.len() ==> is_white_space(#[trigger] s[k]),
        i < j ==> !is_white_space(s[i]) && !is_white_space(s[j - 1]),
    ensures
        trimmed(s) == s.subrange(i, j),
    decreases s.len(),
{
    if s.len() == 0 {
        assert(s.subrange(i, j) =~= s);
    } else if is_white_space(s[0]) {
        let t = s.drop_first();
        let (i2, j2) = if i > 0 {
            (i - 1, j - 1)
        } else {
            (0int, 0int)
        };
        if i == 0 {
            assert(j == 0);
        }
        assert forall|k: int| 0 <= k < i2 implies is_white_space(#[trigger] t[k]) by {
            assert(t[k] == s[k + 1]);
        }
        assert forall|k: int| j2 <= k < t.len() implies is_white_space(#[trigger] t[k]) by {
            assert(t[k] == s[k + 1]);
        }
        lemma_trimmed_range(t, i2, j2);
        assert(t.subrange(i2, j2) =~= s.subrange(i, j));
    } else if is_white_space(s.last()) {
        assert(i == 0);
        assert(j < s.len());
        let t = s.drop_last();
        lemma_trimmed_range(t, i, j);
        assert(t.subrange(i, j) =~= s.subrange(i, j));
    } else {
        assert(i == 0);
        assert(j == s.len());
        assert(s.subrange(i, j) =~= s);
    }
}

/// The characters of `s`, one by one.
pub fn chars_of(s: &str) -> (v: Vec<char>)
    ensures
        v@ == s@,
{
    let mut v: Vec<char> = Vec::new();
    for ch in it: s.chars()
        invariant
            it.seq() == s@,
            v@ == s@.take(it.index() as int),
    {
        v.push(ch);
        assert(s@.take(it.index() + 1) =~= s@.take(it.index() as int).push(ch));
    }
    assert(s@.take(s@.len() as int) =~= s@);
    v
}

/// The bounds of `chars` without its leading and trailing white space.
fn trim_bounds(chars: &Vec<char>) -> (r: (usize, usize))
    ensures
        r.0 <= r.1 <= chars@.len(),
        trimmed(chars@) == chars@.subrange(r.0 as int, r.1 as int),
{
    let n: usize = chars.len();
    let mut i: usize = 0;
    while i < n && white_space(chars[i])
        invariant
            n == chars@.len(),
            i <= n,
            forall|k: int| 0 <= k < i ==> is_white_space(#[trigger] chars@[k]),
        decreases n - i,
    {
        i = i + 1;
    }
    let mut j: usize = n;
    while j > i && white_space(chars[j - 1])
        invariant
            n == chars@.len(),
            i <= j <= n,
            forall|k: int| j <= k < n ==> is_white_space(#[trigger] chars@[k]),
        decreases j - i,
    {
        j = j - 1;
    }
    proof {
        lemma_trimmed_range(chars@, i as int, j as int);
    }
    (i, j)
}

/// Whether `s` holds nothing but white space, that is, `s.trim()` is empty.
pub fn blank(s: &str) -> (r: bool)
    ensures
        r == is_blank(s@),
{
    let chars = chars_of(s);
    let (i, j) = trim_bounds(&chars);
    i == j
}

/// Whether `s` without its leading and trailing white space is `word`.
pub fn trimmed_equals(s: &str, word: &str) -> (r: bool)
    ensures
        r == (trimmed(s@) == word@),
{
    let chars = chars_of(s);
    let target = chars_of(word);
    let (i, j) = trim_bounds(&chars);
    if j - i != target.len() {
        assert(chars@.subrange(i as int, j as int).len() != word@.len());
        assert(trimmed(s@) != word@);
        return false;
    }
    let mut k: usize = 0;
    while k < target.len()
        invariant
            i <= j <= chars@.len(),
            j - i == target@.len(),
            target@ == word@,
            chars@ == s@,
            trimmed(s@) == chars@.subrange(i as int, j as int),
            k <= target@.len(),
            forall|m: int| 0 <= m < k ==> chars@[i + m] == target@[m],
        decreases target@.len() - k,
    {
        if chars[i + k] != target[k] {
            assert(chars@.subrange(i as int, j as int)[k as int] != word@[k as int]);
            assert(trimmed(s@) != word@);
            return false;
        }
        k = k + 1;
    }
    assert(chars@.subrange(i as int, j as int) =~= word@);
    true
}

/// The lines joined into one text, with a line break between two lines.
pub open spec fn joined_lines(lines: Seq<Seq<char>>) -> Seq<char>
    decreases lines.len(),
{
    if lines.len() == 0 {
        Seq::empty()
    } else if lines.len() == 1 {
        lines[0]
    } else {
        joined_lines(lines.drop_last()) + seq!['\n'] + lines.last()
    }
}

/// Joins the lines into one text, with a line break between two lines.
pub fn join_lines(lines: &Vec<String>) -> (text: String)
    ensures
        text@ == joined_lines(texts(lines@)),
{
    let mut text = String::new();
    let n: usize = lines.len();
    let ghost all = texts(lines@);
    let mut k: usize = 0;
    while k < n
        invariant
            n == lines@.len(),
            all == texts(lines@),
            k <= n,
            text@ == joined_lines(all.take(k as int)),
        decreases n - k,
    {
        proof {
            assert(all.take(k + 1).drop_last() =~= all.take(k as int));
        }
        if k > 0 {
            push_char(&mut text, '\n');
        } else {
            assert(Seq::<char>::empty() + lines@[0]@ =~= lines@[0]@);
        }
        text.append(lines[k].as_str());
        k = k + 1;
    }
    assert(all.take(n as int) =~= all);
    text
}

} // verus!
