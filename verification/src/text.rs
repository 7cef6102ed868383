use vstd::prelude::*;

verus! {

/// Whether `c` has the Unicode `White_Space` property (what `char::is_whitespace`
/// reports): tab, line feed, vertical tab, form feed, carriage return, space, next
/// line, no-break space, ogham space mark, the spaces U+2000 to U+200A, line
/// separator, paragraph separator, narrow no-break space, medium mathematical space
/// and ideographic space.
pub open spec fn unicode_white_space(c: char) -> bool {
    let u = c as u32;
    ||| 0x09 <= u <= 0x0d
    ||| u == 0x20
    ||| u == 0x85
    ||| u == 0xa0
    ||| u == 0x1680
    ||| 0x2000 <= u <= 0x200a
    ||| u == 0x2028
    ||| u == 0x2029
    ||| u == 0x202f
    ||| u == 0x205f
    ||| u == 0x3000
}

/// Whether a character beyond ASCII that is not white space is alphabetic or
/// numeric in Unicode, as `char::is_alphanumeric` reports it.
pub uninterp spec fn non_ascii_alphanumeric(c: char) -> bool;

/// Whether `c` is alphabetic or numeric in Unicode (what `char::is_alphanumeric`
/// reports): among ASCII characters the letters and digits, never a white-space
/// character, and otherwise as the Unicode tables say.
pub open spec fn unicode_alphanumeric(c: char) -> bool {
    if (c as u32) < 128 {
        ascii_alphanumeric(c)
    } else if unicode_white_space(c) {
        false
    } else {
        non_ascii_alphanumeric(c)
    }
}

/// Whether `c` is an ASCII letter or digit.
pub open spec fn ascii_alphanumeric(c: char) -> bool {
    ('0' <= c <= '9') || ('a' <= c <= 'z') || ('A' <= c <= 'Z')
}

/// `char::is_whitespace`: whether `c` has the Unicode `White_Space` property.
pub(crate) fn is_white_space(c: char) -> (res: bool)
    ensures
        res == unicode_white_space(c),
{
    let u = c as u32;
    (0x09 <= u && u <= 0x0d) || u == 0x20 || u == 0x85 || u == 0xa0 || u == 0x1680
        || (0x2000 <= u && u <= 0x200a) || u == 0x2028 || u == 0x2029 || u == 0x202f
        || u == 0x205f || u == 0x3000
}

/// Calls `char::is_alphanumeric`, which its documentation defines as the Unicode
/// `Alphabetic` or `Numeric` property. The contract states what follows from that
/// definition for ASCII (exactly the letters and digits) and for white space (never);
/// for the other characters the result is named `non_ascii_alphanumeric(c)`.
#[verifier::external_body]
pub(crate) fn is_alphanumeric(c: char) -> (res: bool)
    ensures
        res == unicode_alphanumeric(c),
        (c as u32) >= 128 && !unicode_white_space(c) ==> res == non_ascii_alphanumeric(c),
{
    c.is_alphanumeric()
}

/// The characters of `s`, in order.
pub(crate) fn chars_of(s: &str) -> (res: Vec<char>)
    ensures
        res@ == s@,
{
    broadcast use vstd::string::group_string_axioms;
    let mut res: Vec<char> = Vec::new();
    for c in it: s.chars()
        invariant
            res@ == it.seq().take(it.index() as int),
            it.seq() == s@,
    {
        res.push(c);
    }
    res
}

/// The string made of the characters of `chars`, in order (collected into a `String`).
#[verifier::external_body]
pub(crate) fn string_from_chars(chars: &Vec<char>) -> (res: String)
    ensures
        res@ == chars@,
{
    chars.iter().collect()
}

/// `s` without its leading white space.
pub open spec fn trim_start(s: Seq<char>) -> Seq<char>
    decreases s.len(),
{
    if s.len() > 0 && unicode_white_space(s[0]) {
        trim_start(s.drop_first())
    } else {
        s
    }
}

/// `s` without its trailing white space.
pub open spec fn trim_end(s: Seq<char>) -> Seq<char>
    decreases s.len(),
{
    if s.len() > 0 && unicode_white_space(s.last()) {
        trim_end(s.drop_last())
    } else {
        s
    }
}

/// `s` without leading and trailing white space (what `str::trim` returns).
pub open spec fn trim(s: Seq<char>) -> Seq<char> {
    trim_end(trim_start(s))
}

/// `s` without any leading copies of `c` (what `str::trim_start_matches(c)` returns).
pub open spec fn strip_leading(s: Seq<char>, c: char) -> Seq<char>
    decreases s.len(),
{
    if s.len() > 0 && s[0] == c {
        strip_leading(s.drop_first(), c)
    } else {
        s
    }
}

/// `s` without any trailing copies of `c` (what `str::trim_end_matches(c)` returns).
pub open spec fn strip_trailing(s: Seq<char>, c: char) -> Seq<char>
    decreases s.len(),
{
    if s.len() > 0 && s.last() == c {
        strip_trailing(s.drop_last(), c)
    } else {
        s
    }
}

proof fn lemma_trim_start_skip(s: Seq<char>, i: int)
    requires
        0 <= i <= s.len(),
        forall|k: int| 0 <= k < i ==> unicode_white_space(#[trigger] s[k]),
        i < s.len() ==> !unicode_white_space(s[i]),
    ensures
        trim_start(s) == s.skip(i),
    decreases i,
{
    if i == 0 {
        assert(s.skip(0) =~= s);
    } else {
        let t = s.drop_first();
        assert forall|k: int| 0 <= k < i - 1 implies unicode_white_space(#[trigger] t[k]) by {
            assert(t[k] == s[k + 1]);
        }
        lemma_trim_start_skip(t, i - 1);
        assert(t.skip(i - 1) =~= s.skip(i));
    }
}

proof fn lemma_trim_end_take(s: Seq<char>, j: int)
    requires
        0 <= j <= s.len(),
        forall|k: int| j <= k < s.len() ==> unicode_white_space(#[trigger] s[k]),
        j > 0 ==> !unicode_white_space(s[j - 1]),
    ensures
        trim_end(s) == s.take(j),
    decreases s.len() - j,
{
    if j == s.len() {
        assert(s.take(j) =~= s);
    } else {
        let t = s.drop_last();
        lemma_trim_end_take(t, j);
        assert(t.take(j) =~= s.take(j));
    }
}

proof fn lemma_strip_leading_skip(s: Seq<char>, c: char, i: int)
    requires
        0 <= i <= s.len(),
        forall|k: int| 0 <= k < i ==> #[trigger] s[k] == c,
        i < s.len() ==> s[i] != c,
    ensures
        strip_leading(s, c) == s.skip(i),
    decreases i,
{
    if i == 0 {
        assert(s.skip(0) =~= s);
    } else {
        let t = s.drop_first();
        assert forall|k: int| 0 <= k < i - 1 implies #[trigger] t[k] == c by {
            assert(t[k] == s[k + 1]);
        }
        lemma_strip_leading_skip(t, c, i - 1);
        assert(t.skip(i - 1) =~= s.skip(i));
    }
}

proof fn lemma_strip_trailing_take(s: Seq<char>, c: char, j: int)
    requires
        0 <= j <= s.len(),
        forall|k: int| j <= k < s.len() ==> #[trigger] s[k] == c,
        j > 0 ==> s[j - 1] != c,
    ensures
        strip_trailing(s, c) == s.take(j),
    decreases s.len() - j,
{
    if j == s.len() {
        assert(s.take(j) =~= s);
    } else {
        let t = s.drop_last();
        lemma_strip_trailing_take(t, c, j);
        assert(t.take(j) =~= s.take(j));
    }
}

/// The characters `v[from..to]` as a new vector.
fn slice_chars(v: &Vec<char>, from: usize, to: usize) -> (res: Vec<char>)
    requires
        from <= to <= v.len(),
    ensures
        res@ == v@.subrange(from as int, to as int),
{
    let mut res: Vec<char> = Vec::new();
    let mut i: usize = from;
    while i < to
        invariant
            from <= i <= to <= v.len(),
            res@ == v@.subrange(from as int, i as int),
        decreases to - i,
    {
        res.push(v[i]);
        i = i + 1;
        assert(res@ =~= v@.subrange(from as int, i as int));
    }
    res
}

/// `str::trim`: `s` without leading and trailing white space.
pub fn trim_text(s: &str) -> (res: String)
    ensures
        res@ == trim(s@),
{
    let v = chars_of(s);
    let n = v.len();
    let mut i: usize = 0;
    while i < n && is_white_space(v[i])
        invariant
            i <= n == v.len(),
            forall|k: int| 0 <= k < i ==> unicode_white_space(#[trigger] v@[k]),
        decreases n - i,
    {
        i = i + 1;
    }
    proof {
        lemma_trim_start_skip(v@, i as int);
    }
    let mut j: usize = n;
    while j > i && is_white_space(v[j - 1])
        invariant
            i <= j <= n == v.len(),
            forall|k: int| j <= k < n ==> unicode_white_space(#[trigger] v@[k]),
        decreases j - i,
    {
        j = j - 1;
    }
    proof {
        let t = v@.skip(i as int);
        let m = (j - i) as int;
        assert forall|k: int| m <= k < t.len() implies unicode_white_space(#[trigger] t[k]) by {
            assert(t[k] == v@[k + i]);
        }
        lemma_trim_end_take(t, m);
        assert(t.take(m) =~= v@.subrange(i as int, j as int));
    }
    let out = slice_chars(&v, i, j);
    string_from_chars(&out)
}

/// `str::trim_start_matches(c)` for a single character: `s` without its leading copies of `c`.
pub fn strip_leading_char(s: &str, c: char) -> (res: String)
    ensures
        res@ == strip_leading(s@, c),
{
    let v = chars_of(s);
    let n = v.len();
    let mut i: usize = 0;
    while i < n && v[i] == c
        invariant
            i <= n == v.len(),
            forall|k: int| 0 <= k < i ==> #[trigger] v@[k] == c,
        decreases n - i,
    {
        i = i + 1;
    }
    proof {
        lemma_strip_leading_skip(v@, c, i as int);
        assert(v@.skip(i as int) =~= v@.subrange(i as int, n as int));
    }
    let out = slice_chars(&v, i, n);
    string_from_chars(&out)
}

/// `str::trim_end_matches(c)` for a single character: `s` without its trailing copies of `c`.
pub fn strip_trailing_char(s: &str, c: char) -> (res: String)
    ensures
        res@ == strip_trailing(s@, c),
{
    let v = chars_of(s);
    let n = v.len();
    let mut j: usize = n;
    while j > 0 && v[j - 1] == c
        invariant
            j <= n == v.len(),
            forall|k: int| j <= k < n ==> #[trigger] v@[k] == c,
        decreases j,
    {
        j = j - 1;
    }
    proof {
        lemma_strip_trailing_take(v@, c, j as int);
        assert(v@.take(j as int) =~= v@.subrange(0, j as int));
    }
    let out = slice_chars(&v, 0, j);
    string_from_chars(&out)
}


/// The decimal digit for `d` (`d < 10`).
pub open spec fn digit_char(d: nat) -> char {
    if d == 0 { '0' }
    else if d == 1 { '1' }
    else if d == 2 { '2' }
    else if d == 3 { '3' }
    else if d == 4 { '4' }
    else if d == 5 { '5' }
    else if d == 6 { '6' }
    else if d == 7 { '7' }
    else if d == 8 { '8' }
    else { '9' }
}

/// The decimal representation of `n`, without leading zeros (what `usize::to_string` gives).
pub open spec fn decimal(n: nat) -> Seq<char>
    decreases n,
{
    if n < 10 {
        seq![digit_char(n)]
    } else {
        decimal(n / 10).push(digit_char(n % 10))
    }
}

fn digit(d: usize) -> (c: char)
    requires
        d < 10,
    ensures
        c == digit_char(d as nat),
{
    if d == 0 { '0' }
    else if d == 1 { '1' }
    else if d == 2 { '2' }
    else if d == 3 { '3' }
    else if d == 4 { '4' }
    else if d == 5 { '5' }
    else if d == 6 { '6' }
    else if d == 7 { '7' }
    else if d == 8 { '8' }
    else { '9' }
}

fn push_decimal(n: usize, out: &mut Vec<char>)
    ensures
        final(out)@ == old(out)@ + decimal(n as nat),
    decreases n,
{
    if n < 10 {
        out.push(digit(n));
        assert(out@ =~= old(out)@ + decimal(n as nat));
    } else {
        push_decimal(n / 10, out);
        out.push(digit(n % 10));
        assert(out@ =~= old(out)@ + decimal(n as nat));
    }
}

/// The decimal representation of `n`.
pub fn decimal_string(n: usize) -> (res: String)
    ensures
        res@ == decimal(n as nat),
{
    let mut v: Vec<char> = Vec::new();
    push_decimal(n, &mut v);
    assert(v@ =~= decimal(n as nat));
    string_from_chars(&v)
}

/// `a` followed by `b`.
pub fn concat_text(a: &str, b: &str) -> (res: String)
    ensures
        res@ == a@ + b@,
{
    let mut r = String::from_str(a);
    r.append(b);
    r
}


proof fn lemma_trim_start_append(s: Seq<char>, t: Seq<char>)
    ensures
        trim_start(s + t) == if trim_start(s).len() > 0 {
            trim_start(s) + t
        } else {
            trim_start(t)
        },
    decreases s.len(),
{
    if s.len() == 0 {
        assert(s + t =~= t);
    } else {
        assert((s + t)[0] == s[0]);
        if unicode_white_space(s[0]) {
            assert((s + t).drop_first() =~= s.drop_first() + t);
            lemma_trim_start_append(s.drop_first(), t);
        }
    }
}

proof fn lemma_trim_end_white_tail(u: Seq<char>, t: Seq<char>)
    requires
        forall|k: int| 0 <= k < t.len() ==> unicode_white_space(#[trigger] t[k]),
    ensures
        trim_end(u + t) == trim_end(u),
    decreases t.len(),
{
    if t.len() == 0 {
        assert(u + t =~= u);
    } else {
        assert((u + t).last() == t.last());
        assert((u + t).drop_last() =~= u + t.drop_last());
        lemma_trim_end_white_tail(u, t.drop_last());
    }
}

/// Trimming ignores white space put after a text: `trim(s + t) == trim(s)` whenever
/// `t` is all white space.
pub proof fn lemma_trim_ignores_white_tail(s: Seq<char>, t: Seq<char>)
    requires
        forall|k: int| 0 <= k < t.len() ==> unicode_white_space(#[trigger] t[k]),
    ensures
        trim(s + t) == trim(s),
{
    lemma_trim_start_append(s, t);
    if trim_start(s).len() > 0 {
        lemma_trim_end_white_tail(trim_start(s), t);
    } else {
        lemma_trim_start_append(t, Seq::<char>::empty());
        assert(t + Seq::<char>::empty() =~= t);
        assert(trim_start(t).len() == 0) by {
            lemma_all_white_trims_away(t);
        }
        assert(trim_start(s) =~= Seq::<char>::empty());
    }
}

proof fn lemma_all_white_trims_away(t: Seq<char>)
    requires
        forall|k: int| 0 <= k < t.len() ==> unicode_white_space(#[trigger] t[k]),
    ensures
        trim_start(t).len() == 0,
    decreases t.len(),
{
    if t.len() > 0 {
        assert(unicode_white_space(t[0]));
        assert forall|k: int| 0 <= k < t.drop_first().len() implies unicode_white_space(#[trigger] t.drop_first()[k]) by {
            assert(t.drop_first()[k] == t[k + 1]);
        }
        lemma_all_white_trims_away(t.drop_first());
    }
}

/// A console line's ending never reaches the text read: the line ending of a Windows
/// console (`\r\n`) and a bare `\n` are trimmed away, as are spaces and tabs.
pub proof fn lemma_line_endings_trimmed(s: Seq<char>)
    ensures
        trim(s + seq!['\r', '\n']) == trim(s),
        trim(s + seq!['\n']) == trim(s),
        unicode_white_space('\r') && unicode_white_space('\n') && unicode_white_space(' ')
            && unicode_white_space('\t'),
{
    lemma_trim_ignores_white_tail(s, seq!['\r', '\n']);
    lemma_trim_ignores_white_tail(s, seq!['\n']);
}

proof fn trim_start_cut(s: Seq<char>) -> (a: int)
    ensures
        0 <= a <= s.len(),
        forall|k: int| 0 <= k < a ==> unicode_white_space(#[trigger] s[k]),
        a < s.len() ==> !unicode_white_space(s[a]),
    decreases s.len(),
{
    if s.len() > 0 && unicode_white_space(s[0]) {
        let r = trim_start_cut(s.drop_first());
        assert forall|k: int| 0 <= k < r + 1 implies unicode_white_space(#[trigger] s[k]) by {
            if k > 0 {
                assert(s[k] == s.drop_first()[k - 1]);
            }
        }
        if r + 1 < s.len() {
            assert(s[r + 1] == s.drop_first()[r]);
        }
        r + 1
    } else {
        0
    }
}

proof fn trim_end_cut(t: Seq<char>) -> (m: int)
    ensures
        0 <= m <= t.len(),
        forall|k: int| m <= k < t.len() ==> unicode_white_space(#[trigger] t[k]),
        m > 0 ==> !unicode_white_space(t[m - 1]),
    decreases t.len(),
{
    if t.len() > 0 && unicode_white_space(t.last()) {
        let r = trim_end_cut(t.drop_last());
        assert forall|k: int| r <= k < t.len() implies unicode_white_space(#[trigger] t[k]) by {
            if k < t.len() - 1 {
                assert(t[k] == t.drop_last()[k]);
            }
        }
        if r > 0 {
            assert(t[r - 1] == t.drop_last()[r - 1]);
        }
        r
    } else {
        t.len() as int
    }
}

/// What trimming leaves: a piece of the text, with no white space at either end, and
/// only white space cut off before and after it.
pub proof fn lemma_trim_shape(s: Seq<char>)
    ensures
        exists|a: int, b: int| {
            &&& 0 <= a <= b <= s.len()
            &&& #[trigger] s.subrange(a, b) == trim(s)
            &&& forall|k: int| 0 <= k < a ==> unicode_white_space(#[trigger] s[k])
            &&& forall|k: int| b <= k < s.len() ==> unicode_white_space(#[trigger] s[k])
        },
        trim(s).len() > 0 ==> !unicode_white_space(trim(s)[0]) && !unicode_white_space(trim(s).last()),
{
    let a = trim_start_cut(s);
    lemma_trim_start_skip(s, a);
    let t = s.skip(a);
    let m = trim_end_cut(t);
    lemma_trim_end_take(t, m);
    assert(t.take(m) =~= s.subrange(a, a + m));
    assert forall|k: int| a + m <= k < s.len() implies unicode_white_space(#[trigger] s[k]) by {
        assert(s[k] == t[k - a]);
    }
    if m > 0 {
        assert(trim(s)[0] == t[0]);
        if a == s.len() {
            assert(t.len() == 0);
        }
        assert(!unicode_white_space(s[a]));
        assert(trim(s).last() == t[m - 1]);
    }
    assert(s.subrange(a, a + m) == trim(s));
}

} // verus!
