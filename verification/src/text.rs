//! Text as sequences of characters: the vocabulary that the contracts of the
//! other modules are written in, and the string operations they are built on.

use vstd::prelude::*;

verus! {

/// Appends one character (`String::push` of std: "appends the given `char` to
/// the end of this `String`").
pub assume_specification[ String::push ](s: &mut String, c: char)
    ensures
        final(s)@ == old(s)@.push(c),
;

// ---------------------------------------------------------------- model

/// The characters with the Unicode property `White_Space`.
pub open spec fn is_white(c: char) -> bool {
    let n = c as u32;
    ||| 0x09 <= n <= 0x0d
    ||| n == 0x20
    ||| n == 0x85
    ||| n == 0xa0
    ||| n == 0x1680
    ||| 0x2000 <= n <= 0x200a
    ||| n == 0x2028
    ||| n == 0x2029
    ||| n == 0x202f
    ||| n == 0x205f
    ||| n == 0x3000
}

/// `s` without its leading white space.
pub open spec fn trim_start(s: Seq<char>) -> Seq<char>
    decreases s.len(),
{
    if s.len() > 0 && is_white(s[0]) {
        trim_start(s.drop_first())
    } else {
        s
    }
}

/// `s` without its trailing white space.
pub open spec fn trim_end(s: Seq<char>) -> Seq<char>
    decreases s.len(),
{
    if s.len() > 0 && is_white(s.last()) {
        trim_end(s.drop_last())
    } else {
        s
    }
}

/// `s` without white space at either end.
pub open spec fn trim(s: Seq<char>) -> Seq<char> {
    trim_end(trim_start(s))
}

/// Nothing but white space.
pub open spec fn blank(s: Seq<char>) -> bool {
    forall|i: int| 0 <= i < s.len() ==> is_white(#[trigger] s[i])
}

/// `needle` stands in `hay` at position `i`.
pub open spec fn occurs_at(hay: Seq<char>, needle: Seq<char>, i: int) -> bool {
    0 <= i && i + needle.len() <= hay.len() && hay.subrange(i, i + needle.len()) == needle
}

/// `needle` stands somewhere in `hay`.
pub open spec fn contains(hay: Seq<char>, needle: Seq<char>) -> bool {
    exists|i: int| occurs_at(hay, needle, i)
}

/// A text stands in itself.
pub broadcast proof fn lemma_contains_itself(s: Seq<char>)
    ensures
        #[trigger] contains(s, s),
{
    assert(s.subrange(0, s.len() as int) =~= s);
    assert(occurs_at(s, s, 0));
}

/// What stands in a text stands in it when more follows.
pub broadcast proof fn lemma_contains_front(a: Seq<char>, b: Seq<char>, needle: Seq<char>)
    requires
        contains(a, needle),
    ensures
        #[trigger] contains(a + b, needle),
{
    let i = choose|i: int| occurs_at(a, needle, i);
    assert((a + b).subrange(i, i + needle.len()) =~= a.subrange(i, i + needle.len()));
    assert(occurs_at(a + b, needle, i));
}

/// What stands in a text stands in it when more comes before.
pub broadcast proof fn lemma_contains_back(a: Seq<char>, b: Seq<char>, needle: Seq<char>)
    requires
        contains(b, needle),
    ensures
        #[trigger] contains(a + b, needle),
{
    let i = choose|i: int| occurs_at(b, needle, i);
    let j = a.len() + i;
    assert((a + b).subrange(j, j + needle.len()) =~= b.subrange(i, i + needle.len()));
    assert(occurs_at(a + b, needle, j));
}

/// Standing in a text of a text.
pub proof fn lemma_contains_trans(hay: Seq<char>, mid: Seq<char>, needle: Seq<char>)
    requires
        contains(hay, mid),
        contains(mid, needle),
    ensures
        contains(hay, needle),
{
    let i = choose|i: int| occurs_at(hay, mid, i);
    let j = choose|j: int| occurs_at(mid, needle, j);
    assert(hay.subrange(i + j, i + j + needle.len()) =~= hay.subrange(
        i,
        i + mid.len(),
    ).subrange(j, j + needle.len()));
    assert(occurs_at(hay, needle, i + j));
}

pub broadcast group group_contains {
    lemma_contains_itself,
    lemma_contains_front,
    lemma_contains_back,
}

/// The pieces of `s` between the characters that satisfy `sep` (one more than
/// there are such characters).
pub open spec fn split(s: Seq<char>, sep: spec_fn(char) -> bool) -> Seq<Seq<char>>
    decreases s.len(),
{
    if s.len() == 0 {
        seq![Seq::<char>::empty()]
    } else {
        let before = split(s.drop_last(), sep);
        if sep(s.last()) {
            before.push(Seq::empty())
        } else {
            before.drop_last().push(before.last().push(s.last()))
        }
    }
}

/// `parts` one after the other with `sep` between them.
pub open spec fn join(parts: Seq<Seq<char>>, sep: Seq<char>) -> Seq<char>
    decreases parts.len(),
{
    if parts.len() == 0 {
        Seq::empty()
    } else if parts.len() == 1 {
        parts[0]
    } else {
        join(parts.drop_last(), sep) + sep + parts.last()
    }
}

/// `s` without one final carriage return.
pub open spec fn strip_cr(s: Seq<char>) -> Seq<char> {
    if s.len() > 0 && s.last() == '\r' {
        s.drop_last()
    } else {
        s
    }
}

/// The lines of `s`: they end in a line feed (with an optional carriage return
/// before it), which the last line may lack.
pub open spec fn lines(s: Seq<char>) -> Seq<Seq<char>> {
    let pieces = split(s, |c: char| c == '\n');
    let ended = pieces.drop_last().map_values(|p: Seq<char>| strip_cr(p));
    if pieces.last().len() == 0 {
        ended
    } else {
        ended.push(pieces.last())
    }
}

/// The maximal runs of non-white characters, in order.
pub open spec fn words(s: Seq<char>) -> Seq<Seq<char>> {
    split(s, |c: char| is_white(c)).filter(|p: Seq<char>| p.len() > 0)
}

/// `s` with every `a` replaced by `b`.
pub open spec fn replace_char(s: Seq<char>, a: char, b: Seq<char>) -> Seq<char>
    decreases s.len(),
{
    if s.len() == 0 {
        Seq::empty()
    } else if s.last() == a {
        replace_char(s.drop_last(), a, b) + b
    } else {
        replace_char(s.drop_last(), a, b).push(s.last())
    }
}

/// ASCII capital letters made small.
pub open spec fn ascii_lower_char(c: char) -> char {
    if 'A' <= c <= 'Z' {
        ((c as u32) + 32) as char
    } else {
        c
    }
}

pub open spec fn ascii_lower(s: Seq<char>) -> Seq<char> {
    s.map_values(|c: char| ascii_lower_char(c))
}

pub open spec fn is_digit(c: char) -> bool {
    '0' <= c <= '9'
}

/// The decimal digit of `d` (below ten).
pub open spec fn digit(d: nat) -> char {
    ('0' as u32 + d) as char
}

/// `n` in decimal, without leading zeros.
pub open spec fn dec(n: nat) -> Seq<char>
    decreases n,
{
    if n < 10 {
        seq![digit(n)]
    } else {
        dec(n / 10).push(digit(n % 10))
    }
}

/// `n` in decimal, with a minus sign where it is negative.
pub open spec fn dec_int(n: int) -> Seq<char> {
    if n < 0 {
        seq!['-'] + dec((-n) as nat)
    } else {
        dec(n as nat)
    }
}

/// The number that a sequence of decimal digits writes.
pub open spec fn digits_value(s: Seq<char>) -> nat
    decreases s.len(),
{
    if s.len() == 0 {
        0
    } else {
        digits_value(s.drop_last()) * 10 + (s.last() as u32 - '0' as u32) as nat
    }
}

pub open spec fn all_digits(s: Seq<char>) -> bool {
    forall|i: int| 0 <= i < s.len() ==> is_digit(#[trigger] s[i])
}

/// The unsigned number up to `max` that `s` writes in decimal: one digit or
/// more, with an optional plus sign in front.
pub open spec fn parse_unsigned(s: Seq<char>, max: nat) -> Option<nat> {
    let t = if s.len() > 0 && s[0] == '+' {
        s.drop_first()
    } else {
        s
    };
    if t.len() > 0 && all_digits(t) && digits_value(t) <= max {
        Some(digits_value(t))
    } else {
        None
    }
}

/// The digits that `s` begins with.
pub open spec fn leading_digits(s: Seq<char>) -> Seq<char>
    decreases s.len(),
{
    if s.len() > 0 && is_digit(s[0]) {
        seq![s[0]] + leading_digits(s.drop_first())
    } else {
        Seq::empty()
    }
}

/// At most the first `n` characters.
pub open spec fn first_chars(s: Seq<char>, n: int) -> Seq<char> {
    if s.len() <= n {
        s
    } else {
        s.take(n)
    }
}

/// Order of texts: by the first character in which they differ, a proper
/// prefix first.
pub open spec fn text_le(a: Seq<char>, b: Seq<char>) -> bool
    decreases a.len(),
{
    if a.len() == 0 {
        true
    } else if b.len() == 0 {
        false
    } else if a[0] == b[0] {
        text_le(a.drop_first(), b.drop_first())
    } else {
        a[0] < b[0]
    }
}

/// No text stands before a smaller one.
pub open spec fn sorted(v: Seq<Seq<char>>) -> bool {
    forall|i: int, j: int| 0 <= i < j < v.len() ==> text_le(#[trigger] v[i], #[trigger] v[j])
}

// ---------------------------------------------------------------- conversion

/// The characters of a text.
pub fn to_chars(s: &str) -> (v: Vec<char>)
    ensures
        v@ == s@,
{
    let mut v: Vec<char> = Vec::new();
    for c in it: s.chars()
        invariant
            it.seq() == s@,
            v@ == s@.take(it.index() as int),
    {
        v.push(c);
    }
    v
}

/// The text of the characters from `from` to `to`.
pub fn from_chars(v: &[char], from: usize, to: usize) -> (s: String)
    requires
        from <= to <= v@.len(),
    ensures
        s@ == v@.subrange(from as int, to as int),
{
    let mut s: String = String::new();
    let mut i: usize = from;
    while i < to
        invariant
            from <= i <= to <= v@.len(),
            s@ == v@.subrange(from as int, i as int),
        decreases to - i,
    {
        s.push(v[i]);
        i = i + 1;
    }
    s
}

/// Whether two texts are the same.
pub fn same(a: &str, b: &str) -> (r: bool)
    ensures
        r == (a@ == b@),
{
    a.to_owned() == b.to_owned()
}

// ---------------------------------------------------------------- white space

pub fn white(c: char) -> (r: bool)
    ensures
        r == is_white(c),
{
    let n: u32 = c as u32;
    (0x09 <= n && n <= 0x0d) || n == 0x20 || n == 0x85 || n == 0xa0 || n == 0x1680 || (0x2000 <= n
        && n <= 0x200a) || n == 0x2028 || n == 0x2029 || n == 0x202f || n == 0x205f || n == 0x3000
}

proof fn lemma_trim_start_skips(s: Seq<char>, i: int)
    requires
        0 <= i <= s.len(),
        forall|k: int| 0 <= k < i ==> is_white(#[trigger] s[k]),
        i < s.len() ==> !is_white(s[i]),
    ensures
        trim_start(s) == s.skip(i),
    decreases i,
{
    if i > 0 {
        lemma_trim_start_skips(s.drop_first(), i - 1);
        assert(s.drop_first().skip(i - 1) == s.skip(i));
    } else {
        assert(s.skip(0) == s);
    }
}

proof fn lemma_trim_end_takes(s: Seq<char>, j: int)
    requires
        0 <= j <= s.len(),
        forall|k: int| j <= k < s.len() ==> is_white(#[trigger] s[k]),
        j > 0 ==> !is_white(s[j - 1]),
    ensures
        trim_end(s) == s.take(j),
    decreases s.len() - j,
{
    if j < s.len() {
        lemma_trim_end_takes(s.drop_last(), j);
        assert(s.drop_last().take(j) == s.take(j));
    } else {
        assert(s.take(j) == s);
    }
}

/// Trimming leaves nothing exactly of blank texts.
pub proof fn lemma_trim_empty_iff_blank(s: Seq<char>)
    ensures
        trim(s).len() == 0 <==> blank(s),
{
    lemma_first_solid(s);
    let i = first_solid(s);
    lemma_trim_start_skips(s, i);
    let t = s.skip(i);
    if i == s.len() {
        assert(trim_end(t) == t);
    } else {
        assert(t[0] == s[i]);
        lemma_trim_end_keeps_head(t);
    }
}

spec fn first_solid(s: Seq<char>) -> int
    decreases s.len(),
{
    if s.len() > 0 && is_white(s[0]) {
        first_solid(s.drop_first()) + 1
    } else {
        0
    }
}

proof fn lemma_first_solid(s: Seq<char>)
    ensures
        0 <= first_solid(s) <= s.len(),
        forall|k: int| 0 <= k < first_solid(s) ==> is_white(#[trigger] s[k]),
        first_solid(s) < s.len() ==> !is_white(s[first_solid(s)]),
    decreases s.len(),
{
    if s.len() > 0 && is_white(s[0]) {
        lemma_first_solid(s.drop_first());
        assert forall|k: int| 0 <= k < first_solid(s) implies is_white(#[trigger] s[k]) by {
            if k > 0 {
                assert(s.drop_first()[k - 1] == s[k]);
            }
        }
    }
}

proof fn lemma_trim_end_keeps_head(s: Seq<char>)
    requires
        s.len() > 0,
        !is_white(s[0]),
    ensures
        trim_end(s).len() > 0,
    decreases s.len(),
{
    if is_white(s.last()) {
        lemma_trim_end_keeps_head(s.drop_last());
    }
}

/// A text with no white space at either end is its own trimming.
pub proof fn lemma_trim_solid(s: Seq<char>)
    requires
        s.len() > 0 ==> !is_white(s[0]) && !is_white(s.last()),
    ensures
        trim(s) == s,
{
}

/// The bounds of a text's trimming.
fn trim_bounds(v: &[char]) -> (r: (usize, usize))
    ensures
        r.0 <= r.1 <= v@.len(),
        trim(v@) == v@.subrange(r.0 as int, r.1 as int),
{
    let mut i: usize = 0;
    while i < v.len() && white(v[i])
        invariant
            i <= v@.len(),
            forall|k: int| 0 <= k < i ==> is_white(#[trigger] v@[k]),
        decreases v@.len() - i,
    {
        i = i + 1;
    }
    let mut j: usize = v.len();
    while j > i && white(v[j - 1])
        invariant
            i <= j <= v@.len(),
            forall|k: int| j <= k < v@.len() ==> is_white(#[trigger] v@[k]),
        decreases j,
    {
        j = j - 1;
    }
    proof {
        lemma_trim_start_skips(v@, i as int);
        let t = v@.skip(i as int);
        assert forall|k: int| j - i <= k < t.len() implies is_white(#[trigger] t[k]) by {
            assert(t[k] == v@[k + i]);
        }
        lemma_trim_end_takes(t, j - i);
        assert(t.take(j - i) == v@.subrange(i as int, j as int));
    }
    (i, j)
}

/// The text without white space at either end.
pub fn trimmed(s: &str) -> (r: String)
    ensures
        r@ == trim(s@),
{
    let v = to_chars(s);
    let (i, j) = trim_bounds(v.as_slice());
    from_chars(v.as_slice(), i, j)
}

/// Whether a text holds nothing but white space.
pub fn is_blank(s: &str) -> (r: bool)
    ensures
        r == blank(s@),
        r == (trim(s@).len() == 0),
{
    proof {
        lemma_trim_empty_iff_blank(s@);
    }
    let v = to_chars(s);
    let mut i: usize = 0;
    while i < v.len()
        invariant
            i <= v@.len(),
            v@ == s@,
            forall|k: int| 0 <= k < i ==> is_white(#[trigger] v@[k]),
            (trim(s@).len() == 0) == blank(s@),
        decreases v@.len() - i,
    {
        if !white(v[i]) {
            return false;
        }
        i = i + 1;
    }
    true
}

// ---------------------------------------------------------------- search

/// Whether `needle` stands in `hay` at `i`.
fn stands_at(hay: &[char], needle: &[char], i: usize) -> (r: bool)
    requires
        i + needle@.len() <= hay@.len(),
    ensures
        r == occurs_at(hay@, needle@, i as int),
{
    let total: usize = hay.len();
    let mut k: usize = 0;
    while k < needle.len()
        invariant
            k <= needle@.len(),
            i + needle@.len() <= hay@.len() == total,
            forall|x: int| 0 <= x < k ==> hay@[i + x] == #[trigger] needle@[x],
        decreases needle@.len() - k,
    {
        if hay[i + k] != needle[k] {
            proof {
                let piece = hay@.subrange(i as int, i + needle@.len());
                assert(piece[k as int] == hay@[i + k]);
            }
            return false;
        }
        k = k + 1;
    }
    assert(hay@.subrange(i as int, i + needle@.len()) =~= needle@);
    true
}

/// Whether `needle` stands somewhere in `hay`.
pub fn has(hay: &str, needle: &str) -> (r: bool)
    ensures
        r == contains(hay@, needle@),
{
    let h = to_chars(hay);
    let n = to_chars(needle);
    if n.len() > h.len() {
        return false;
    }
    let last: usize = h.len() - n.len();
    let mut i: usize = 0;
    while i <= last
        invariant
            h@ == hay@,
            n@ == needle@,
            n@.len() + last == h@.len(),
            i <= last + 1,
            forall|k: int| 0 <= k < i ==> !#[trigger] occurs_at(h@, n@, k),
        decreases last + 1 - i,
    {
        if stands_at(h.as_slice(), n.as_slice(), i) {
            return true;
        }
        if i == last {
            assert forall|k: int| !#[trigger] occurs_at(h@, n@, k) by {}
            return false;
        }
        i = i + 1;
    }
    false
}

/// Whether a text begins with `prefix`.
pub fn begins_with(s: &str, prefix: &str) -> (r: bool)
    ensures
        r == prefix@.is_prefix_of(s@),
{
    let h = to_chars(s);
    let n = to_chars(prefix);
    if n.len() > h.len() {
        return false;
    }
    let r = stands_at(h.as_slice(), n.as_slice(), 0);
    proof {
        assert(h@.subrange(0, n@.len() as int) == h@.take(n@.len() as int));
    }
    r
}

/// Whether a character stands in a text.
pub fn has_char(s: &str, c: char) -> (r: bool)
    ensures
        r == s@.contains(c),
{
    let v = to_chars(s);
    let mut i: usize = 0;
    while i < v.len()
        invariant
            i <= v@.len(),
            v@ == s@,
            forall|k: int| 0 <= k < i ==> #[trigger] v@[k] != c,
        decreases v@.len() - i,
    {
        if v[i] == c {
            assert(s@[i as int] == c);
            return true;
        }
        i = i + 1;
    }
    false
}

// ---------------------------------------------------------------- pieces

/// There is always a last piece.
pub proof fn lemma_split_nonempty(s: Seq<char>, sep: spec_fn(char) -> bool)
    ensures
        split(s, sep).len() > 0,
    decreases s.len(),
{
    if s.len() > 0 {
        lemma_split_nonempty(s.drop_last(), sep);
    }
}

/// The pieces of a text between the occurrences of either separator.
pub fn pieces(s: &str, a: char, b: char) -> (r: Vec<String>)
    ensures
        r.deep_view() == split(s@, |c: char| c == a || c == b),
{
    let ghost sep = |c: char| c == a || c == b;
    let v = to_chars(s);
    let mut out: Vec<String> = Vec::new();
    let mut cur: String = String::new();
    let mut i: usize = 0;
    assert(v@.take(0).len() == 0);
    assert(out.deep_view().push(cur@) =~= split(v@.take(0), sep));
    while i < v.len()
        invariant
            i <= v@.len(),
            v@ == s@,
            sep == (|c: char| c == a || c == b),
            out.deep_view().push(cur@) == split(v@.take(i as int), sep),
        decreases v@.len() - i,
    {
        let c = v[i];
        proof {
            assert(v@.take(i + 1).drop_last() == v@.take(i as int));
            assert(v@.take(i + 1).last() == c);
            assert(out.deep_view().push(cur@).drop_last() == out.deep_view());
            assert(out.deep_view().push(cur@).last() == cur@);
        }
        if c == a || c == b {
            let ghost old_out = out.deep_view();
            let ghost old_cur = cur@;
            out.push(cur);
            assert(out.deep_view() =~= old_out.push(old_cur));
            cur = String::new();
        } else {
            cur.push(c);
        }
        i = i + 1;
    }
    assert(v@.take(v@.len() as int) == v@);
    let ghost old_out = out.deep_view();
    let ghost old_cur = cur@;
    out.push(cur);
    assert(out.deep_view() =~= old_out.push(old_cur));
    out
}

/// The pieces that are not empty.
pub fn nonempty(v: &Vec<String>) -> (r: Vec<String>)
    ensures
        r.deep_view() == v.deep_view().filter(|p: Seq<char>| p.len() > 0),
{
    let ghost keep = |p: Seq<char>| p.len() > 0;
    let mut out: Vec<String> = Vec::new();
    let mut i: usize = 0;
    assert(out.deep_view() =~= v.deep_view().take(0).filter(keep));
    while i < v.len()
        invariant
            i <= v@.len(),
            keep == (|p: Seq<char>| p.len() > 0),
            out.deep_view() == v.deep_view().take(i as int).filter(keep),
        decreases v@.len() - i,
    {
        proof {
            reveal(Seq::filter);
            let t = v.deep_view().take(i + 1);
            assert(t.drop_last() == v.deep_view().take(i as int));
            assert(t.last() == v@[i as int]@);
        }
        if !v[i].as_str().is_empty() {
            let ghost before = out.deep_view();
            out.push(v[i].clone());
            assert(out.deep_view() =~= before.push(v@[i as int]@));
        }
        i = i + 1;
    }
    assert(v.deep_view().take(v@.len() as int) == v.deep_view());
    out
}

proof fn lemma_split_congruent(s: Seq<char>, f: spec_fn(char) -> bool, g: spec_fn(char) -> bool)
    requires
        forall|c: char| #[trigger] f(c) == g(c),
    ensures
        split(s, f) == split(s, g),
    decreases s.len(),
{
    if s.len() > 0 {
        lemma_split_congruent(s.drop_last(), f, g);
    }
}

/// The pieces of a text between the occurrences of a separator.
pub fn pieces_on(s: &str, a: char) -> (r: Vec<String>)
    ensures
        r.deep_view() == split(s@, |c: char| c == a),
{
    proof {
        lemma_split_congruent(s@, |c: char| c == a || c == a, |c: char| c == a);
    }
    pieces(s, a, a)
}

/// The lines of a text.
pub fn line_list(s: &str) -> (r: Vec<String>)
    ensures
        r.deep_view() == lines(s@),
{
    let parts = pieces_on(s, '\n');
    proof {
        lemma_split_nonempty(s@, |c: char| c == '\n');
    }
    let ghost all = split(s@, |c: char| c == '\n');
    assert(parts.deep_view().len() == parts@.len());
    let n: usize = parts.len() - 1;
    let mut out: Vec<String> = Vec::new();
    let mut i: usize = 0;
    while i < n
        invariant
            i <= n,
            n + 1 == parts@.len(),
            parts.deep_view() == all,
            out.deep_view() == all.drop_last().map_values(|p: Seq<char>| strip_cr(p)).take(
                i as int,
            ),
        decreases n - i,
    {
        let ghost before = out.deep_view();
        let c = to_chars(parts[i].as_str());
        let piece = if c.len() > 0 && c[c.len() - 1] == '\r' {
            from_chars(c.as_slice(), 0, c.len() - 1)
        } else {
            parts[i].clone()
        };
        assert(parts.deep_view()[i as int] == c@);
        assert(piece@ == strip_cr(all[i as int]));
        out.push(piece);
        assert(out.deep_view() =~= before.push(piece@));
        assert(out.deep_view() =~= all.drop_last().map_values(|p: Seq<char>| strip_cr(p)).take(
            i + 1,
        ));
        i = i + 1;
    }
    assert(out.deep_view() =~= all.drop_last().map_values(|p: Seq<char>| strip_cr(p)));
    assert(parts.deep_view()[n as int] == parts@[n as int]@);
    if !parts[n].as_str().is_empty() {
        let ghost before = out.deep_view();
        out.push(parts[n].clone());
        assert(out.deep_view() =~= before.push(all.last()));
    }
    out
}

/// The words of a text.
pub fn word_list(s: &str) -> (r: Vec<String>)
    ensures
        r.deep_view() == words(s@),
{
    let ghost sep = |c: char| is_white(c);
    let v = to_chars(s);
    let mut out: Vec<String> = Vec::new();
    let mut cur: String = String::new();
    let mut i: usize = 0;
    assert(v@.take(0).len() == 0);
    assert(out.deep_view().push(cur@) =~= split(v@.take(0), sep));
    while i < v.len()
        invariant
            i <= v@.len(),
            v@ == s@,
            sep == (|c: char| is_white(c)),
            out.deep_view().push(cur@) == split(v@.take(i as int), sep),
        decreases v@.len() - i,
    {
        let c = v[i];
        proof {
            assert(v@.take(i + 1).drop_last() == v@.take(i as int));
            assert(v@.take(i + 1).last() == c);
            assert(out.deep_view().push(cur@).drop_last() == out.deep_view());
            assert(out.deep_view().push(cur@).last() == cur@);
        }
        if white(c) {
            let ghost old_out = out.deep_view();
            let ghost old_cur = cur@;
            out.push(cur);
            assert(out.deep_view() =~= old_out.push(old_cur));
            cur = String::new();
        } else {
            cur.push(c);
        }
        i = i + 1;
    }
    assert(v@.take(v@.len() as int) == v@);
    let ghost old_out = out.deep_view();
    let ghost old_cur = cur@;
    out.push(cur);
    assert(out.deep_view() =~= old_out.push(old_cur));
    nonempty(&out)
}

/// The texts one after the other with `sep` between them.
pub fn joined(v: &Vec<String>, sep: &str) -> (r: String)
    ensures
        r@ == join(v.deep_view(), sep@),
{
    let mut out: String = String::new();
    let mut i: usize = 0;
    while i < v.len()
        invariant
            i <= v@.len(),
            out@ == join(v.deep_view().take(i as int), sep@),
        decreases v@.len() - i,
    {
        proof {
            let t = v.deep_view().take(i + 1);
            assert(t.drop_last() == v.deep_view().take(i as int));
            assert(t.last() == v@[i as int]@);
        }
        if i > 0 {
            out.append(sep);
            out.append(v[i].as_str());
        } else {
            out = v[i].clone();
        }
        i = i + 1;
    }
    assert(v.deep_view().take(v@.len() as int) == v.deep_view());
    out
}

// ---------------------------------------------------------------- rewriting

/// The text with every `a` replaced by `b`.
pub fn replaced(s: &str, a: char, b: &str) -> (r: String)
    ensures
        r@ == replace_char(s@, a, b@),
{
    let v = to_chars(s);
    let mut out: String = String::new();
    let mut i: usize = 0;
    while i < v.len()
        invariant
            i <= v@.len(),
            v@ == s@,
            out@ == replace_char(v@.take(i as int), a, b@),
        decreases v@.len() - i,
    {
        proof {
            assert(v@.take(i + 1).drop_last() == v@.take(i as int));
            assert(v@.take(i + 1).last() == v@[i as int]);
        }
        if v[i] == a {
            out.append(b);
        } else {
            out.push(v[i]);
        }
        i = i + 1;
    }
    assert(v@.take(v@.len() as int) == v@);
    out
}

fn lower_char(c: char) -> (r: char)
    ensures
        r == ascii_lower_char(c),
{
    if 'A' <= c && c <= 'Z' {
        let b: u8 = c as u8;
        (b + 32) as char
    } else {
        c
    }
}

/// The text with ASCII capital letters made small.
pub fn lowered(s: &str) -> (r: String)
    ensures
        r@ == ascii_lower(s@),
{
    let v = to_chars(s);
    let mut out: String = String::new();
    let mut i: usize = 0;
    while i < v.len()
        invariant
            i <= v@.len(),
            v@ == s@,
            out@ == ascii_lower(v@).take(i as int),
        decreases v@.len() - i,
    {
        out.push(lower_char(v[i]));
        assert(out@ =~= ascii_lower(v@).take(i + 1));
        i = i + 1;
    }
    assert(ascii_lower(v@).take(v@.len() as int) == ascii_lower(v@));
    out
}

/// At most the first `n` characters of a text.
pub fn head_chars(s: &str, n: usize) -> (r: String)
    ensures
        r@ == first_chars(s@, n as int),
{
    let v = to_chars(s);
    if v.len() <= n {
        s.to_owned()
    } else {
        from_chars(v.as_slice(), 0, n)
    }
}

/// How many characters a text has.
pub fn char_count(s: &str) -> (n: usize)
    ensures
        n == s@.len(),
{
    to_chars(s).len()
}

// ---------------------------------------------------------------- numbers

fn digit_char(d: u8) -> (c: char)
    requires
        d < 10,
    ensures
        c == digit(d as nat),
{
    (48 + d) as char
}

/// A number in decimal.
pub fn decimal(n: u64) -> (r: String)
    ensures
        r@ == dec(n as nat),
    decreases n,
{
    if n < 10 {
        let mut s: String = String::new();
        s.push(digit_char(n as u8));
        assert(s@ =~= dec(n as nat));
        s
    } else {
        let mut s: String = decimal(n / 10);
        s.push(digit_char((n % 10) as u8));
        s
    }
}

/// A signed number in decimal.
pub fn decimal_signed(n: i64) -> (r: String)
    ensures
        r@ == dec_int(n as int),
{
    if n < 0 {
        let magnitude: u64 = (-(n as i128)) as u64;
        let mut s: String = String::new();
        s.push('-');
        let d = decimal(magnitude);
        s.append(d.as_str());
        assert(s@ =~= dec_int(n as int));
        s
    } else {
        decimal(n as u64)
    }
}

proof fn lemma_digits_value_grows(s: Seq<char>, i: int)
    requires
        0 <= i <= s.len(),
        all_digits(s),
    ensures
        digits_value(s.take(i)) <= digits_value(s),
    decreases s.len() - i,
{
    if i < s.len() {
        lemma_digits_value_grows(s, i + 1);
        let t = s.take(i + 1);
        assert(t.drop_last() == s.take(i));
        assert(is_digit(s[i]));
    } else {
        assert(s.take(i) == s);
    }
}

/// The value of the digits from `from` on, where it does not exceed `max`.
fn number_from(v: &[char], from: usize, max: u64) -> (r: Option<u64>)
    requires
        from <= v@.len(),
        all_digits(v@.skip(from as int)),
    ensures
        r == if digits_value(v@.skip(from as int)) <= max {
            Some(digits_value(v@.skip(from as int)) as u64)
        } else {
            None::<u64>
        },
{
    let ghost t = v@.skip(from as int);
    let mut n: u64 = 0;
    let mut i: usize = from;
    assert(t.take(0).len() == 0);
    while i < v.len()
        invariant
            from <= i <= v@.len(),
            t == v@.skip(from as int),
            all_digits(t),
            n == digits_value(t.take(i - from)),
            n <= max,
        decreases v@.len() - i,
    {
        proof {
            assert(t.take(i + 1 - from).drop_last() == t.take(i - from));
            assert(t.take(i + 1 - from).last() == v@[i as int]);
            assert(is_digit(t[i - from]));
            lemma_digits_value_grows(t, i + 1 - from);
        }
        let d: u64 = (v[i] as u32 - '0' as u32) as u64;
        if d > max || n > (max - d) / 10 {
            assert(digits_value(t.take(i + 1 - from)) > max);
            return None;
        }
        n = n * 10 + d;
        i = i + 1;
    }
    assert(t.take(t.len() as int) == t);
    Some(n)
}

/// Whether the characters from `from` on are all digits.
fn digits_from(v: &[char], from: usize) -> (r: bool)
    requires
        from <= v@.len(),
    ensures
        r == all_digits(v@.skip(from as int)),
{
    let ghost t = v@.skip(from as int);
    let mut i: usize = from;
    while i < v.len()
        invariant
            from <= i <= v@.len(),
            t == v@.skip(from as int),
            forall|k: int| 0 <= k < i - from ==> is_digit(#[trigger] t[k]),
        decreases v@.len() - i,
    {
        if !('0' <= v[i] && v[i] <= '9') {
            assert(t[i - from] == v@[i as int]);
            return false;
        }
        assert(t[i - from] == v@[i as int]);
        i = i + 1;
    }
    true
}

/// The unsigned number up to `max` that a text writes.
pub fn parsed(s: &str, max: u64) -> (r: Option<u64>)
    ensures
        match r {
            Some(n) => parse_unsigned(s@, max as nat) == Some(n as nat),
            None => parse_unsigned(s@, max as nat) is None,
        },
{
    let v = to_chars(s);
    let from: usize = if v.len() > 0 && v[0] == '+' {
        1
    } else {
        0
    };
    proof {
        assert(v@.skip(0) == v@);
        assert(v@.len() > 0 ==> v@.skip(1) == v@.drop_first());
    }
    if from == v.len() || !digits_from(v.as_slice(), from) {
        return None;
    }
    number_from(v.as_slice(), from, max)
}

proof fn lemma_leading_digits(s: Seq<char>, i: int)
    requires
        0 <= i <= s.len(),
        forall|k: int| 0 <= k < i ==> is_digit(#[trigger] s[k]),
        i < s.len() ==> !is_digit(s[i]),
    ensures
        leading_digits(s) == s.take(i),
    decreases i,
{
    if i > 0 {
        lemma_leading_digits(s.drop_first(), i - 1);
        assert(seq![s[0]] + s.drop_first().take(i - 1) =~= s.take(i));
    } else {
        assert(s.take(0) =~= Seq::empty());
    }
}

/// The digits that a text begins with.
pub fn digit_run(s: &str) -> (r: String)
    ensures
        r@ == leading_digits(s@),
{
    let v = to_chars(s);
    let mut i: usize = 0;
    while i < v.len() && '0' <= v[i] && v[i] <= '9'
        invariant
            i <= v@.len(),
            v@ == s@,
            forall|k: int| 0 <= k < i ==> is_digit(#[trigger] v@[k]),
        decreases v@.len() - i,
    {
        i = i + 1;
    }
    proof {
        lemma_leading_digits(v@, i as int);
    }
    from_chars(v.as_slice(), 0, i)
}

// ---------------------------------------------------------------- order

/// Any two texts are comparable.
pub proof fn lemma_text_le_total(a: Seq<char>, b: Seq<char>)
    ensures
        text_le(a, b) || text_le(b, a),
    decreases a.len(),
{
    if a.len() > 0 && b.len() > 0 && a[0] == b[0] {
        lemma_text_le_total(a.drop_first(), b.drop_first());
    }
}

/// The order of texts is transitive.
pub proof fn lemma_text_le_transitive(a: Seq<char>, b: Seq<char>, c: Seq<char>)
    requires
        text_le(a, b),
        text_le(b, c),
    ensures
        text_le(a, c),
    decreases a.len(),
{
    if a.len() > 0 && b.len() > 0 && c.len() > 0 && a[0] == b[0] && b[0] == c[0] {
        lemma_text_le_transitive(a.drop_first(), b.drop_first(), c.drop_first());
    }
}

/// Texts that precede each other are the same.
pub proof fn lemma_text_le_antisymmetric(a: Seq<char>, b: Seq<char>)
    requires
        text_le(a, b),
        text_le(b, a),
    ensures
        a == b,
    decreases a.len(),
{
    if a.len() > 0 && b.len() > 0 && a[0] == b[0] {
        lemma_text_le_antisymmetric(a.drop_first(), b.drop_first());
        assert(a =~= seq![a[0]] + a.drop_first());
        assert(b =~= seq![b[0]] + b.drop_first());
    } else {
        assert(a =~= b);
    }
}

proof fn lemma_text_le_prefix(a: Seq<char>, b: Seq<char>, i: int)
    requires
        0 <= i <= a.len(),
        i <= b.len(),
        a.take(i) == b.take(i),
    ensures
        text_le(a, b) == text_le(a.skip(i), b.skip(i)),
    decreases i,
{
    if i > 0 {
        assert(a[0] == a.take(i)[0]);
        assert(b[0] == b.take(i)[0]);
        assert(a.drop_first().take(i - 1) =~= a.take(i).drop_first());
        assert(b.drop_first().take(i - 1) =~= b.take(i).drop_first());
        lemma_text_le_prefix(a.drop_first(), b.drop_first(), i - 1);
        assert(a.drop_first().skip(i - 1) == a.skip(i));
        assert(b.drop_first().skip(i - 1) == b.skip(i));
    } else {
        assert(a.skip(0) == a);
        assert(b.skip(0) == b);
    }
}

/// Whether the first text may stand before the second.
pub fn precedes(a: &str, b: &str) -> (r: bool)
    ensures
        r == text_le(a@, b@),
{
    let x = to_chars(a);
    let y = to_chars(b);
    let mut i: usize = 0;
    while i < x.len() && i < y.len() && x[i] == y[i]
        invariant
            i <= x@.len(),
            i <= y@.len(),
            x@.take(i as int) == y@.take(i as int),
        decreases x@.len() - i,
    {
        proof {
            assert(x@.take(i + 1) =~= x@.take(i as int).push(x@[i as int]));
            assert(y@.take(i + 1) =~= y@.take(i as int).push(y@[i as int]));
        }
        i = i + 1;
    }
    proof {
        lemma_text_le_prefix(x@, y@, i as int);
    }
    if i == x.len() {
        true
    } else if i == y.len() {
        false
    } else {
        x[i] < y[i]
    }
}

/// The same texts, each as often, in order.
pub open spec fn sorted_version(r: Seq<Seq<char>>, v: Seq<Seq<char>>) -> bool {
    sorted(r) && r.to_multiset() == v.to_multiset()
}

proof fn lemma_sorted_insert(before: Seq<Seq<char>>, k: int, x: Seq<char>)
    requires
        sorted(before),
        0 <= k <= before.len(),
        forall|i: int| 0 <= i < k ==> text_le(#[trigger] before[i], x),
        k < before.len() ==> text_le(x, before[k]),
    ensures
        sorted(before.insert(k, x)),
        before.insert(k, x).to_multiset() == before.to_multiset().insert(x),
{
    before.to_multiset_ensures();
    assert(before.insert(k, x).to_multiset() =~= before.to_multiset().insert(x)) by {
        vstd::seq_lib::to_multiset_insert(before, k, x);
    }
    let after = before.insert(k, x);
    assert forall|i: int, j: int| 0 <= i < j < after.len() implies text_le(
        #[trigger] after[i],
        #[trigger] after[j],
    ) by {
        if i == k {
            if j - 1 > k {
                assert(text_le(before[k], before[j - 1]));
                lemma_text_le_transitive(x, before[k], before[j - 1]);
            }
        }
    }
}

/// There is one way to put texts in order.
pub proof fn lemma_sorted_version_unique(a: Seq<Seq<char>>, b: Seq<Seq<char>>, v: Seq<Seq<char>>)
    requires
        sorted_version(a, v),
        sorted_version(b, v),
    ensures
        a == b,
{
    let le = |x: Seq<char>, y: Seq<char>| text_le(x, y);
    assert(vstd::relations::total_ordering(le)) by {
        assert forall|x: Seq<char>| #[trigger] le(x, x) by {
            lemma_text_le_total(x, x);
        }
        assert forall|x: Seq<char>, y: Seq<char>| #[trigger] le(x, y) && #[trigger] le(y, x) implies x
            == y by {
            lemma_text_le_antisymmetric(x, y);
        }
        assert forall|x: Seq<char>, y: Seq<char>, z: Seq<char>| #[trigger]
            le(x, y) && #[trigger] le(y, z) implies le(x, z) by {
            lemma_text_le_transitive(x, y, z);
        }
        assert forall|x: Seq<char>, y: Seq<char>| #[trigger] le(x, y) || #[trigger] le(y, x) by {
            lemma_text_le_total(x, y);
        }
    }
    vstd::seq_lib::lemma_sorted_unique(a, b, le);
}

/// The texts of a set, each once, in order.
pub open spec fn lists(v: Seq<Seq<char>>, set: Set<Seq<char>>) -> bool {
    &&& sorted(v)
    &&& v.no_duplicates()
    &&& forall|t: Seq<char>| #[trigger] v.contains(t) <==> set.contains(t)
}

/// The texts of a finite set in order.
pub open spec fn in_order(set: Set<Seq<char>>) -> Seq<Seq<char>> {
    choose|v: Seq<Seq<char>>| lists(v, set)
}

/// There is one way to list a set of texts in order.
pub proof fn lemma_lists_unique(a: Seq<Seq<char>>, b: Seq<Seq<char>>, set: Set<Seq<char>>)
    requires
        lists(a, set),
        lists(b, set),
    ensures
        a == b,
{
    broadcast use vstd::multiset::group_multiset_axioms;

    a.to_multiset_ensures();
    b.to_multiset_ensures();
    a.lemma_multiset_has_no_duplicates();
    b.lemma_multiset_has_no_duplicates();
    assert forall|t: Seq<char>| #[trigger] a.to_multiset().count(t) == b.to_multiset().count(t) by {
        assert(a.contains(t) <==> b.contains(t));
        assert(a.contains(t) <==> a.to_multiset().count(t) > 0);
        assert(b.contains(t) <==> b.to_multiset().count(t) > 0);
        assert(a.to_multiset().contains(t) <==> a.to_multiset().count(t) > 0);
        assert(b.to_multiset().contains(t) <==> b.to_multiset().count(t) > 0);
    }
    assert(a.to_multiset() =~= b.to_multiset());
    lemma_sorted_version_unique(a, b, b);
}

/// What lists a set in order is the list of the set in order.
pub proof fn lemma_lists_in_order(v: Seq<Seq<char>>, set: Set<Seq<char>>)
    requires
        lists(v, set),
    ensures
        v == in_order(set),
{
    lemma_lists_unique(v, in_order(set), set);
}

pub proof fn lemma_lists_insert(before: Seq<Seq<char>>, set: Set<Seq<char>>, k: int, x: Seq<char>)
    requires
        lists(before, set),
        0 <= k <= before.len(),
        forall|i: int| 0 <= i < k ==> text_le(#[trigger] before[i], x) && before[i] != x,
        k < before.len() ==> text_le(x, before[k]),
    ensures
        k < before.len() && before[k] == x ==> lists(before, set.insert(x)),
        !(k < before.len() && before[k] == x) ==> lists(before.insert(k, x), set.insert(x)),
{
    lemma_sorted_insert(before, k, x);
    if k < before.len() && before[k] == x {
        assert(before.contains(x));
        assert forall|t: Seq<char>| #[trigger] before.contains(t) <==> set.insert(x).contains(t) by {
            assert(before.contains(t) <==> set.contains(t));
        }
    } else {
        let after = before.insert(k, x);
        assert forall|i: int| 0 <= i < before.len() implies before[i] != x by {
            if i > k && before[i] == x {
                assert(text_le(before[k], before[i]));
                lemma_text_le_antisymmetric(before[k], x);
            }
        }
        assert(after.no_duplicates());
        assert forall|t: Seq<char>| #[trigger] after.contains(t) <==> set.insert(x).contains(t) by {
            if after.contains(t) {
                let i = choose|i: int| 0 <= i < after.len() && after[i] == t;
                if i < k {
                    assert(before[i] == t);
                    assert(before.contains(t));
                } else if i > k {
                    assert(before[i - 1] == t);
                    assert(before.contains(t));
                }
            }
            if set.insert(x).contains(t) {
                if t == x {
                    assert(after[k] == x);
                } else {
                    assert(before.contains(t));
                    let i = choose|i: int| 0 <= i < before.len() && before[i] == t;
                    if i < k {
                        assert(after[i] == t);
                    } else {
                        assert(after[i + 1] == t);
                    }
                }
            }
        }
    }
}

/// The first position whose text does not stand before `x`.
pub fn place(v: &Vec<String>, x: &str) -> (k: usize)
    requires
        sorted(v.deep_view()),
        v.deep_view().no_duplicates(),
    ensures
        k <= v@.len(),
        forall|i: int|
            0 <= i < k ==> text_le(#[trigger] v.deep_view()[i], x@) && v.deep_view()[i] != x@,
        k < v@.len() ==> text_le(x@, v.deep_view()[k as int]),
{
    let ghost list = v.deep_view();
    let mut lo: usize = 0;
    let mut hi: usize = v.len();
    while lo < hi
        invariant
            lo <= hi <= v@.len(),
            list == v.deep_view(),
            sorted(list),
            list.no_duplicates(),
            forall|i: int| 0 <= i < lo ==> text_le(#[trigger] list[i], x@) && list[i] != x@,
            hi < v@.len() ==> text_le(x@, list[hi as int]),
        decreases hi - lo,
    {
        let mid: usize = lo + (hi - lo) / 2;
        assert(list[mid as int] == v@[mid as int]@);
        if precedes(x, v[mid].as_str()) {
            hi = mid;
        } else {
            proof {
                lemma_text_le_total(x@, list[mid as int]);
                assert forall|i: int| 0 <= i < mid + 1 implies text_le(#[trigger] list[i], x@)
                    && list[i] != x@ by {
                    if i < mid {
                        assert(text_le(list[i], list[mid as int]));
                        lemma_text_le_transitive(list[i], list[mid as int], x@);
                        if list[i] == x@ {
                            assert(text_le(x@, list[mid as int]));
                        }
                    }
                }
            }
            lo = mid + 1;
        }
    }
    lo
}

/// Lists texts in order, each once.
pub fn ordered_texts(v: &Vec<String>) -> (r: Vec<String>)
    ensures
        lists(r.deep_view(), v.deep_view().to_set()),
        r.deep_view() == in_order(v.deep_view().to_set()),
{
    let ghost list = v.deep_view();
    let mut out: Vec<String> = Vec::new();
    let mut i: usize = 0;
    assert(lists(out.deep_view(), list.take(0).to_set()));
    while i < v.len()
        invariant
            i <= v@.len(),
            list == v.deep_view(),
            out@.len() <= i,
            lists(out.deep_view(), list.take(i as int).to_set()),
        decreases v@.len() - i,
    {
        let ghost before = out.deep_view();
        let ghost x = v@[i as int]@;
        let k: usize = place(&out, v[i].as_str());
        proof {
            lemma_lists_insert(before, list.take(i as int).to_set(), k as int, x);
            assert(list.take(i + 1) =~= list.take(i as int).push(x));
            assert(list.take(i + 1).to_set() =~= list.take(i as int).to_set().insert(x)) by {
                lemma_push_set(list.take(i as int), x);
            }
            if k < out@.len() {
                assert(before[k as int] == out@[k as int]@);
            }
        }
        if k < out.len() && same(out[k].as_str(), v[i].as_str()) {
        } else {
            out.insert(k, v[i].clone());
            assert(out.deep_view() =~= before.insert(k as int, x));
        }
        i = i + 1;
    }
    assert(list.take(list.len() as int) =~= list);
    proof {
        lemma_lists_in_order(out.deep_view(), list.to_set());
    }
    out
}

pub proof fn lemma_push_set(a: Seq<Seq<char>>, x: Seq<char>)
    ensures
        a.push(x).to_set() == a.to_set().insert(x),
{
    assert forall|t: Seq<char>| a.push(x).to_set().contains(t) == a.to_set().insert(x).contains(t) by {
        if a.contains(t) {
            let i = choose|i: int| 0 <= i < a.len() && a[i] == t;
            assert(a.push(x)[i] == t);
        }
        if t == x {
            assert(a.push(x)[a.len() as int] == t);
        }
        if a.push(x).contains(t) {
            let i = choose|i: int| 0 <= i < a.push(x).len() && a.push(x)[i] == t;
            if i < a.len() {
                assert(a[i] == t);
            }
        }
    }
    assert(a.push(x).to_set() =~= a.to_set().insert(x));
}

// ---------------------------------------------------------------- laws

/// Trimming cuts white space at both ends, all of it, and nothing else.
pub proof fn law_trim(s: Seq<char>)
    ensures
        trim(s).len() > 0 ==> !is_white(trim(s)[0]) && !is_white(trim(s).last()),
        exists|i: int, j: int|
            0 <= i <= j <= s.len() && trim(s) == #[trigger] s.subrange(i, j) && blank(
                s.subrange(0, i),
            ) && blank(s.subrange(j, s.len() as int)),
{
    lemma_first_solid(s);
    let i = first_solid(s);
    lemma_trim_start_skips(s, i);
    let t = s.skip(i);
    lemma_trim_end_is_prefix(t);
    let n = trim_end(t).len() as int;
    if n > 0 {
        assert(trim(s)[0] == s[i]);
    }
    assert(trim(s) =~= s.subrange(i, i + n));
    assert forall|k: int| 0 <= k < s.subrange(0, i).len() implies is_white(
        #[trigger] s.subrange(0, i)[k],
    ) by {
        assert(s.subrange(0, i)[k] == s[k]);
    }
    let cut = s.subrange(i + n, s.len() as int);
    assert forall|k: int| 0 <= k < cut.len() implies is_white(#[trigger] cut[k]) by {
        assert(cut[k] == t[n + k]);
    }
}

proof fn lemma_trim_end_is_prefix(s: Seq<char>)
    ensures
        trim_end(s).len() <= s.len(),
        trim_end(s) == s.take(trim_end(s).len() as int),
        trim_end(s).len() > 0 ==> !is_white(trim_end(s).last()),
        forall|k: int| trim_end(s).len() <= k < s.len() ==> is_white(#[trigger] s[k]),
    decreases s.len(),
{
    if s.len() > 0 && is_white(s.last()) {
        lemma_trim_end_is_prefix(s.drop_last());
        let n = trim_end(s).len() as int;
        assert(s.drop_last().take(n) =~= s.take(n));
        assert forall|k: int| n <= k < s.len() implies is_white(#[trigger] s[k]) by {
            if k < s.len() - 1 {
                assert(s.drop_last()[k] == s[k]);
            }
        }
    } else {
        assert(s.take(s.len() as int) =~= s);
    }
}

/// The pieces between separators, joined by the separator, are the text again,
/// and no piece holds the separator.
pub proof fn law_split_joins_back(s: Seq<char>, c: char, f: spec_fn(char) -> bool)
    requires
        forall|x: char| #[trigger] f(x) <==> x == c,
    ensures
        join(split(s, f), seq![c]) == s,
        forall|i: int| 0 <= i < split(s, f).len() ==> !(#[trigger] split(s, f)[i]).contains(c),
    decreases s.len(),
{
    let p = split(s, f);
    reveal_with_fuel(join, 2);
    if s.len() == 0 {
        assert(p =~= seq![Seq::<char>::empty()]);
        assert(join(p, seq![c]) =~= s);
    } else {
        let before = split(s.drop_last(), f);
        law_split_joins_back(s.drop_last(), c, f);
        lemma_split_nonempty(s.drop_last(), f);
        if s.last() == c {
            assert(p.drop_last() =~= before);
            assert(join(p, seq![c]) =~= s.drop_last() + seq![c] + Seq::empty());
            assert(s.drop_last() + seq![c] + Seq::<char>::empty() =~= s);
            assert forall|i: int| 0 <= i < p.len() implies !(#[trigger] p[i]).contains(c) by {
                if i < before.len() {
                    assert(p[i] == before[i]);
                }
            }
        } else {
            let last = before.last().push(s.last());
            assert(p.last() == last);
            assert(p.drop_last() =~= before.drop_last());
            assert(!before[before.len() - 1].contains(c));
            assert(!last.contains(c)) by {
                if last.contains(c) {
                    let k = choose|k: int| 0 <= k < last.len() && last[k] == c;
                    assert(before.last()[k] == c);
                }
            }
            assert forall|i: int| 0 <= i < p.len() implies !(#[trigger] p[i]).contains(c) by {
                if i < before.len() - 1 {
                    assert(p[i] == before[i]);
                }
            }
            if before.len() == 1 {
                assert(join(before, seq![c]) == before[0]);
                assert(join(p, seq![c]) =~= s);
            } else {
                assert(join(p, seq![c]) =~= join(before, seq![c]).push(s.last()));
                assert(s.drop_last().push(s.last()) =~= s);
            }
        }
    }
}

/// Joining keeps the order: the parts of two lists with the separator between.
pub proof fn law_join_in_order(a: Seq<Seq<char>>, b: Seq<Seq<char>>, sep: Seq<char>)
    requires
        a.len() > 0,
        b.len() > 0,
    ensures
        join(a + b, sep) == join(a, sep) + sep + join(b, sep),
        join(a, sep).is_prefix_of(join(a + b, sep)),
    decreases b.len(),
{
    reveal_with_fuel(join, 2);
    assert((a + b).drop_last() =~= a + b.drop_last());
    if b.len() == 1 {
        assert(b.drop_last() =~= Seq::empty());
        assert(a + b.drop_last() =~= a);
    } else {
        law_join_in_order(a, b.drop_last(), sep);
    }
    assert(join(a + b, sep) =~= join(a, sep) + sep + join(b, sep));
}

/// Every part stands in what was joined.
pub proof fn law_join_holds(parts: Seq<Seq<char>>, sep: Seq<char>, i: int)
    requires
        0 <= i < parts.len(),
    ensures
        contains(join(parts, sep), parts[i]),
    decreases parts.len(),
{
    broadcast use group_contains;

    if parts.len() == 1 {
    } else if i == parts.len() - 1 {
        assert(contains(join(parts, sep), parts.last()));
    } else {
        law_join_holds(parts.drop_last(), sep, i);
        assert(contains(join(parts.drop_last(), sep), parts[i]));
    }
}

/// A number written in decimal reads back as itself.
pub proof fn law_decimal_reads_back(n: nat, max: nat)
    requires
        n <= max,
    ensures
        parse_unsigned(dec(n), max) == Some(n),
        dec(n).len() > 0,
        all_digits(dec(n)),
{
    lemma_decimal(n);
    assert(is_digit(dec(n)[0]));
}

proof fn lemma_decimal(n: nat)
    ensures
        dec(n).len() > 0,
        all_digits(dec(n)),
        digits_value(dec(n)) == n,
    decreases n,
{
    let d = (n % 10) as nat;
    assert(digit(d) as u32 == '0' as u32 + d);
    if n < 10 {
        reveal_with_fuel(digits_value, 2);
        assert(seq![digit(n)].drop_last() =~= Seq::empty());
    } else {
        lemma_decimal(n / 10);
        let s = dec(n);
        assert(s.drop_last() =~= dec(n / 10));
        assert forall|i: int| 0 <= i < s.len() implies is_digit(#[trigger] s[i]) by {
            if i < s.len() - 1 {
                assert(s[i] == dec(n / 10)[i]);
            }
        }
    }
}

/// Two numbers are written alike only where they are the same.
pub proof fn law_decimal_tells_apart(a: nat, b: nat)
    ensures
        dec(a) == dec(b) ==> a == b,
{
    lemma_decimal(a);
    lemma_decimal(b);
}

/// Replacing goes character by character, in order, and only where it applies.
pub proof fn law_replace(a: Seq<char>, b: Seq<char>, old_char: char, new_text: Seq<char>)
    ensures
        replace_char(a + b, old_char, new_text) == replace_char(a, old_char, new_text)
            + replace_char(b, old_char, new_text),
        replace_char(seq![old_char], old_char, new_text) == new_text,
        !a.contains(old_char) ==> replace_char(a, old_char, new_text) == a,
    decreases a.len() + b.len(),
{
    reveal_with_fuel(replace_char, 2);
    assert(seq![old_char].drop_last() =~= Seq::empty());
    assert(replace_char(seq![old_char], old_char, new_text) =~= new_text);
    if b.len() == 0 {
        assert(a + b =~= a);
        assert(replace_char(a, old_char, new_text) + replace_char(b, old_char, new_text)
            =~= replace_char(a, old_char, new_text));
    } else {
        assert((a + b).drop_last() =~= a + b.drop_last());
        law_replace(a, b.drop_last(), old_char, new_text);
        assert(replace_char(a + b, old_char, new_text) =~= replace_char(a, old_char, new_text)
            + replace_char(b, old_char, new_text));
    }
    if a.len() > 0 && !a.contains(old_char) {
        assert(a[a.len() - 1] != old_char);
        assert(!a.drop_last().contains(old_char)) by {
            if a.drop_last().contains(old_char) {
                let k = choose|k: int| 0 <= k < a.drop_last().len() && a.drop_last()[k] == old_char;
                assert(a[k] == old_char);
            }
        }
        law_replace(a.drop_last(), Seq::empty(), old_char, new_text);
        assert(a.drop_last().push(a.last()) =~= a);
    } else if a.len() == 0 {
        assert(replace_char(a, old_char, new_text) =~= a);
    }
}

/// The first characters are the beginning, as long as asked or as there is.
pub proof fn law_first_chars(s: Seq<char>, n: nat)
    ensures
        first_chars(s, n as int).is_prefix_of(s),
        first_chars(s, n as int).len() == if s.len() <= n {
            s.len()
        } else {
            n
        },
{
}

/// Making small letters changes capitals only, and once is enough.
pub proof fn law_lower(s: Seq<char>, i: int)
    requires
        0 <= i < s.len(),
    ensures
        ascii_lower(s).len() == s.len(),
        ascii_lower(ascii_lower(s)) == ascii_lower(s),
        !('A' <= s[i] <= 'Z') ==> ascii_lower(s)[i] == s[i],
        'A' <= s[i] <= 'Z' ==> 'a' <= ascii_lower(s)[i] <= 'z',
{
    assert forall|k: int| 0 <= k < s.len() implies ascii_lower_char(
        ascii_lower_char(#[trigger] s[k]),
    ) == ascii_lower_char(s[k]) by {
        lemma_lower_char(s[k]);
    }
    lemma_lower_char(s[i]);
    assert(ascii_lower(ascii_lower(s)) =~= ascii_lower(s));
}

proof fn lemma_lower_char(c: char)
    ensures
        'A' <= c <= 'Z' ==> ascii_lower_char(c) as u32 == c as u32 + 32,
        ascii_lower_char(ascii_lower_char(c)) == ascii_lower_char(c),
{
}

/// Words hold no white space and are never empty.
pub proof fn law_words_are_solid(s: Seq<char>, i: int)
    requires
        0 <= i < words(s).len(),
    ensures
        words(s)[i].len() > 0,
        forall|k: int| 0 <= k < words(s)[i].len() ==> !is_white(#[trigger] words(s)[i][k]),
{
    let f = |c: char| is_white(c);
    let keep = |p: Seq<char>| p.len() > 0;
    lemma_split_pieces_solid(s, f);
    let p = split(s, f);
    p.filter_lemma(keep);
    let w = words(s)[i];
    assert(keep(w));
    assert(p.filter(keep).contains(w));
    p.lemma_filter_contains_rev(keep, w);
    let j = choose|j: int| 0 <= j < p.len() && p[j] == w;
    assert forall|k: int| 0 <= k < w.len() implies !is_white(#[trigger] w[k]) by {
        assert(!f(p[j][k]));
    }
}

proof fn lemma_split_pieces_solid(s: Seq<char>, sep: spec_fn(char) -> bool)
    ensures
        forall|i: int, k: int|
            0 <= i < split(s, sep).len() && 0 <= k < split(s, sep)[i].len() ==> !sep(
                #[trigger] split(s, sep)[i][k],
            ),
    decreases s.len(),
{
    if s.len() > 0 {
        let before = split(s.drop_last(), sep);
        lemma_split_pieces_solid(s.drop_last(), sep);
        lemma_split_nonempty(s.drop_last(), sep);
        let p = split(s, sep);
        assert forall|i: int, k: int| 0 <= i < p.len() && 0 <= k < p[i].len() implies !sep(
            #[trigger] p[i][k],
        ) by {
            if sep(s.last()) {
                if i < before.len() {
                    assert(p[i][k] == before[i][k]);
                }
            } else if i < before.len() - 1 {
                assert(p[i][k] == before[i][k]);
            } else if k < before.last().len() {
                assert(p[i][k] == before[before.len() - 1][k]);
            }
        }
    }
}

proof fn lemma_split_plain_tail(a: Seq<char>, l: Seq<char>, c: char, f: spec_fn(char) -> bool)
    requires
        forall|x: char| #[trigger] f(x) <==> x == c,
        !l.contains(c),
    ensures
        split(a.push(c) + l, f) == split(a, f).push(l),
    decreases l.len(),
{
    if l.len() == 0 {
        assert(a.push(c) + l =~= a.push(c));
        assert(a.push(c).drop_last() =~= a);
        assert(l =~= Seq::empty());
    } else {
        let m = l.drop_last();
        assert(!m.contains(c)) by {
            if m.contains(c) {
                let k = choose|k: int| 0 <= k < m.len() && m[k] == c;
                assert(l[k] == c);
            }
        }
        lemma_split_plain_tail(a, m, c, f);
        assert((a.push(c) + l).drop_last() =~= a.push(c) + m);
        assert(l[l.len() - 1] != c);
        assert((a.push(c) + l).last() == l.last());
        let before = split(a, f).push(m);
        assert(before.drop_last() =~= split(a, f));
        assert(m.push(l.last()) =~= l);
    }
}

proof fn lemma_split_plain(l: Seq<char>, c: char, f: spec_fn(char) -> bool)
    requires
        forall|x: char| #[trigger] f(x) <==> x == c,
        !l.contains(c),
    ensures
        split(l, f) == seq![l],
    decreases l.len(),
{
    if l.len() > 0 {
        let m = l.drop_last();
        assert(!m.contains(c)) by {
            if m.contains(c) {
                let k = choose|k: int| 0 <= k < m.len() && m[k] == c;
                assert(l[k] == c);
            }
        }
        lemma_split_plain(m, c, f);
        assert(l[l.len() - 1] != c);
        assert(m.push(l.last()) =~= l);
        assert(split(l, f) =~= seq![l]);
    } else {
        assert(l =~= Seq::empty());
        assert(split(l, f) =~= seq![l]);
    }
}

/// A line behind a line feed is the last of the lines; a text without one is a
/// line by itself.
pub proof fn law_last_line(a: Seq<char>, l: Seq<char>)
    requires
        l.len() > 0,
        !l.contains('\n'),
    ensures
        lines(l) == seq![l],
        lines(a.push('\n') + l).last() == l,
        lines(a.push('\n') + l).len() == split(a, |c: char| c == '\n').len() + 1,
{
    let f = |c: char| c == '\n';
    lemma_split_plain(l, '\n', f);
    lemma_split_plain_tail(a, l, '\n', f);
    assert(lines(l) =~= seq![l]);
}

/// Splitting at a separator parts the text there: the pieces before it, then the
/// pieces behind it.
pub proof fn law_split_in_order(a: Seq<char>, b: Seq<char>, c: char, f: spec_fn(char) -> bool)
    requires
        f(c),
    ensures
        split(a.push(c) + b, f) == split(a, f) + split(b, f),
    decreases b.len(),
{
    let s = a.push(c) + b;
    if b.len() == 0 {
        assert(s =~= a.push(c));
        assert(a.push(c).drop_last() =~= a);
        assert(split(s, f) =~= split(a, f) + split(b, f));
    } else {
        let m = b.drop_last();
        law_split_in_order(a, m, c, f);
        assert(s.drop_last() =~= a.push(c) + m);
        lemma_split_nonempty(m, f);
        assert(split(s, f) =~= split(a, f) + split(b, f));
    }
}

/// A line ends with its line feed, and a carriage return before that is no part
/// of it.
pub proof fn law_ended_line(l: Seq<char>)
    requires
        !l.contains('\n'),
        l.len() > 0 ==> l.last() != '\r',
    ensures
        lines(l.push('\n')) == seq![l],
        lines(l.push('\r').push('\n')) == seq![l],
{
    let f = |c: char| c == '\n';
    let none = Seq::<char>::empty();
    lemma_split_plain(l, '\n', f);
    lemma_split_plain_tail(l, none, '\n', f);
    assert(l.push('\n') + none =~= l.push('\n'));
    let p = split(l.push('\n'), f);
    assert(p =~= seq![l, none]);
    assert(lines(l.push('\n')) =~= seq![l]);
    let r = l.push('\r');
    assert(!r.contains('\n')) by {
        if r.contains('\n') {
            let k = choose|k: int| 0 <= k < r.len() && r[k] == '\n';
            assert(l[k] == '\n');
        }
    }
    lemma_split_plain(r, '\n', f);
    lemma_split_plain_tail(r, none, '\n', f);
    assert(r.push('\n') + none =~= r.push('\n'));
    let q = split(r.push('\n'), f);
    assert(q =~= seq![r, none]);
    assert(r.drop_last() =~= l);
    assert(lines(r.push('\n')) =~= seq![l]);
}

/// Texts are ordered by the first character in which they differ; a beginning
/// comes before what it begins.
pub proof fn law_text_order(p: Seq<char>, c: char, d: char, x: Seq<char>, y: Seq<char>)
    requires
        c < d,
    ensures
        text_le(p.push(c) + x, p.push(d) + y),
        !text_le(p.push(d) + y, p.push(c) + x),
        text_le(p, p + x),
        x.len() > 0 ==> !text_le(p + x, p),
    decreases p.len(),
{
    let a = p.push(c) + x;
    let b = p.push(d) + y;
    if p.len() > 0 {
        let q = p.drop_first();
        law_text_order(q, c, d, x, y);
        assert(a.drop_first() =~= q.push(c) + x);
        assert(b.drop_first() =~= q.push(d) + y);
        assert((p + x).drop_first() =~= q + x);
        assert(a[0] == p[0] && b[0] == p[0]);
    } else {
        assert(a[0] == c && b[0] == d);
    }
}

/// A number other than zero is written without a zero in front.
pub proof fn law_decimal_no_leading_zero(n: nat)
    requires
        n > 0,
    ensures
        dec(n)[0] != '0',
    decreases n,
{
    if n >= 10 {
        law_decimal_no_leading_zero(n / 10);
        lemma_decimal(n / 10);
    } else {
        assert(digit(n) as u32 == '0' as u32 + n);
    }
}

proof fn lemma_place_exists(before: Seq<Seq<char>>, x: Seq<char>)
    requires
        sorted(before),
    ensures
        exists|k: int|
            0 <= k <= before.len() && #[trigger] is_place(before, x, k),
    decreases before.len(),
{
    if before.len() == 0 {
        assert(is_place(before, x, 0));
    } else {
        lemma_text_le_total(x, before[0]);
        if text_le(x, before[0]) {
            assert(is_place(before, x, 0));
        } else {
            let rest = before.drop_first();
            assert forall|i: int, j: int| 0 <= i < j < rest.len() implies text_le(
                #[trigger] rest[i],
                #[trigger] rest[j],
            ) by {
                assert(rest[i] == before[i + 1] && rest[j] == before[j + 1]);
            }
            lemma_place_exists(rest, x);
            let k = choose|k: int| 0 <= k <= rest.len() && #[trigger] is_place(rest, x, k);
            assert forall|i: int| 0 <= i < k + 1 implies text_le(#[trigger] before[i], x) && before[i]
                != x by {
                if i > 0 {
                    assert(rest[i - 1] == before[i]);
                } else if before[0] == x {
                    lemma_text_le_total(x, x);
                }
            }
            if k + 1 < before.len() {
                assert(rest[k] == before[k + 1]);
            }
            assert(is_place(before, x, k + 1));
        }
    }
}

spec fn is_place(before: Seq<Seq<char>>, x: Seq<char>, k: int) -> bool {
    &&& forall|i: int| 0 <= i < k ==> text_le(#[trigger] before[i], x) && before[i] != x
    &&& k < before.len() ==> text_le(x, before[k])
}

proof fn lemma_listable(v: Seq<Seq<char>>)
    ensures
        exists|w: Seq<Seq<char>>| #[trigger] lists(w, v.to_set()),
    decreases v.len(),
{
    if v.len() == 0 {
        let w = Seq::<Seq<char>>::empty();
        assert forall|t: Seq<char>| #[trigger] w.contains(t) <==> v.to_set().contains(t) by {}
        assert(lists(w, v.to_set()));
    } else {
        let u = v.drop_last();
        let x = v.last();
        lemma_listable(u);
        let w = choose|w: Seq<Seq<char>>| #[trigger] lists(w, u.to_set());
        lemma_place_exists(w, x);
        let k = choose|k: int| 0 <= k <= w.len() && #[trigger] is_place(w, x, k);
        lemma_lists_insert(w, u.to_set(), k, x);
        assert forall|t: Seq<char>| v.to_set().contains(t) <==> u.to_set().insert(x).contains(t) by {
            if v.contains(t) {
                let i = choose|i: int| 0 <= i < v.len() && v[i] == t;
                if i < u.len() {
                    assert(u[i] == t);
                }
            }
            if u.contains(t) {
                let i = choose|i: int| 0 <= i < u.len() && u[i] == t;
                assert(v[i] == t);
            }
            assert(v[v.len() - 1] == x);
        }
        assert(v.to_set() =~= u.to_set().insert(x));
    }
}

/// The texts of a list in order: each once, none lost, none added.
pub proof fn law_in_order(v: Seq<Seq<char>>)
    ensures
        lists(in_order(v.to_set()), v.to_set()),
        forall|t: Seq<char>| #[trigger] in_order(v.to_set()).contains(t) <==> v.contains(t),
        sorted(in_order(v.to_set())),
{
    lemma_listable(v);
    assert forall|t: Seq<char>| #[trigger] in_order(v.to_set()).contains(t) <==> v.contains(t) by {
        assert(v.to_set().contains(t) <==> v.contains(t));
    }
}

} // verus!
