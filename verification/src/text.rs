//! Character-level helpers over `&str`: whitespace, trimming, and searching.
use vstd::prelude::*;
use vstd::string::*;
use vstd::utf8::*;

verus! {

/// The Unicode `White_Space` property, the whitespace that `str::trim` removes.
pub open spec fn is_white_space(c: char) -> bool {
    let u = c as u32;
    (9 <= u <= 13) || u == 32 || u == 0x85 || u == 0xA0 || u == 0x1680 || (0x2000 <= u <= 0x200A)
        || u == 0x2028 || u == 0x2029 || u == 0x202F || u == 0x205F || u == 0x3000
}

/// `s` without its leading whitespace.
pub open spec fn trim_start_ws(s: Seq<char>) -> Seq<char>
    decreases s.len(),
{
    if s.len() > 0 && is_white_space(s[0]) {
        trim_start_ws(s.drop_first())
    } else {
        s
    }
}

/// `s` without its trailing whitespace.
pub open spec fn trim_end_ws(s: Seq<char>) -> Seq<char>
    decreases s.len(),
{
    if s.len() > 0 && is_white_space(s.last()) {
        trim_end_ws(s.drop_last())
    } else {
        s
    }
}

/// `s` without its leading and trailing whitespace.
pub open spec fn trim_ws(s: Seq<char>) -> Seq<char> {
    trim_end_ws(trim_start_ws(s))
}

/// `i` is the position of the first `c` in `s`.
pub open spec fn is_first_index(s: Seq<char>, c: char, i: int) -> bool {
    &&& 0 <= i < s.len()
    &&& s[i] == c
    &&& forall|j: int| 0 <= j < i ==> s[j] != c
}

/// The position of the first `c` in `s`, if `s` holds one.
pub open spec fn first_index(s: Seq<char>, c: char) -> Option<int> {
    if exists|i: int| is_first_index(s, c, i) {
        Some(choose|i: int| is_first_index(s, c, i))
    } else {
        None
    }
}

/// Whether `s` holds two dots in a row.
pub open spec fn has_dot_dot(s: Seq<char>) -> bool {
    exists|i: int| 0 <= i < s.len() - 1 && s[i] == '.' && #[trigger] s[i + 1] == '.'
}

/// The first position of a character is unique.
pub proof fn lemma_first_index_unique(s: Seq<char>, c: char, i: int)
    requires
        is_first_index(s, c, i),
    ensures
        first_index(s, c) == Some(i),
{
    let k = choose|k: int| is_first_index(s, c, k);
    assert(is_first_index(s, c, k));
    if k < i {
        assert(s[k] != c);
    } else if i < k {
        assert(s[i] != c);
    }
}

/// A sequence without `c` has no first position of `c`.
pub proof fn lemma_first_index_none(s: Seq<char>, c: char)
    requires
        forall|j: int| 0 <= j < s.len() ==> s[j] != c,
    ensures
        first_index(s, c) == None::<int>,
{
    if exists|i: int| is_first_index(s, c, i) {
        let k = choose|k: int| is_first_index(s, c, k);
        assert(s[k] == c);
    }
}

/// The UTF-8 encoding of a concatenation is the concatenation of the encodings.
pub proof fn lemma_encode_utf8_concat(a: Seq<char>, b: Seq<char>)
    ensures
        encode_utf8(a + b) == encode_utf8(a) + encode_utf8(b),
    decreases a.len(),
{
    if a.len() == 0 {
        assert(a + b =~= b);
    } else {
        lemma_encode_utf8_concat(a.drop_first(), b);
        assert((a + b).drop_first() =~= a.drop_first() + b);
        assert((a + b)[0] == a[0]);
    }
}

/// The position of the first `c` in `s`, searching from the start.
pub fn find_char(s: &str, c: char) -> (pos: Option<usize>)
    ensures
        match pos {
            Some(i) => first_index(s@, c) == Some(i as int),
            None => first_index(s@, c) == None::<int>,
        },
{
    let n = s.unicode_len();
    let mut i: usize = 0;
    while i < n
        invariant
            n == s@.len(),
            i <= n,
            forall|j: int| 0 <= j < i ==> s@[j] != c,
        decreases n - i,
    {
        if s.get_char(i) == c {
            proof {
                lemma_first_index_unique(s@, c, i as int);
            }
            return Some(i);
        }
        i = i + 1;
    }
    proof {
        lemma_first_index_none(s@, c);
    }
    None
}

/// Whether `c` belongs to the Unicode `White_Space` property.
pub fn is_white_space_char(c: char) -> (ws: bool)
    ensures
        ws == is_white_space(c),
{
    let u = c as u32;
    (9 <= u && u <= 13) || u == 32 || u == 0x85 || u == 0xA0 || u == 0x1680 || (0x2000 <= u && u
        <= 0x200A) || u == 0x2028 || u == 0x2029 || u == 0x202F || u == 0x205F || u == 0x3000
}

/// `s` without its leading and trailing whitespace, as `str::trim` gives it.
pub fn trim(s: &str) -> (t: &str)
    ensures
        t@ == trim_ws(s@),
{
    let n = s.unicode_len();
    let mut start: usize = 0;
    assert(s@.subrange(0, n as int) =~= s@);
    while start < n && is_white_space_char(s.get_char(start))
        invariant
            n == s@.len(),
            start <= n,
            trim_start_ws(s@) == trim_start_ws(s@.subrange(start as int, n as int)),
        decreases n - start,
    {
        let ghost rest = s@.subrange(start as int, n as int);
        assert(rest.drop_first() =~= s@.subrange(start + 1, n as int));
        start = start + 1;
    }
    let ghost mid = s@.subrange(start as int, n as int);
    assert(trim_start_ws(mid) == mid);
    let mut end: usize = n;
    while end > start && is_white_space_char(s.get_char(end - 1))
        invariant
            n == s@.len(),
            start <= end <= n,
            mid == s@.subrange(start as int, n as int),
            trim_end_ws(mid) == trim_end_ws(s@.subrange(start as int, end as int)),
        decreases end - start,
    {
        let ghost part = s@.subrange(start as int, end as int);
        assert(part.drop_last() =~= s@.subrange(start as int, end - 1));
        end = end - 1;
    }
    let t = s.substring_char(start, end);
    t
}

/// Whether `s` holds two dots in a row.
pub fn contains_dot_dot(s: &str) -> (found: bool)
    ensures
        found == has_dot_dot(s@),
{
    let n = s.unicode_len();
    if n < 2 {
        return false;
    }
    let mut i: usize = 0;
    while i < n - 1
        invariant
            n == s@.len(),
            n >= 2,
            i <= n - 1,
            forall|j: int| 0 <= j < i ==> !(s@[j] == '.' && #[trigger] s@[j + 1] == '.'),
        decreases n - 1 - i,
    {
        if s.get_char(i) == '.' && s.get_char(i + 1) == '.' {
            return true;
        }
        i = i + 1;
    }
    false
}


/// Trimming ignores whitespace appended at the end.
pub proof fn lemma_trim_ws_push_white_space(s: Seq<char>, w: char)
    requires
        is_white_space(w),
    ensures
        trim_ws(s.push(w)) == trim_ws(s),
{
    lemma_trim_start_ws_push(s, w);
    let t = trim_start_ws(s);
    if t.len() > 0 {
        assert(t.push(w).drop_last() =~= t);
    }
}

proof fn lemma_trim_start_ws_push(s: Seq<char>, w: char)
    requires
        is_white_space(w),
    ensures
        trim_start_ws(s.push(w)) == (if trim_start_ws(s).len() == 0 {
            Seq::<char>::empty()
        } else {
            trim_start_ws(s).push(w)
        }),
    decreases s.len(),
{
    if s.len() == 0 {
        assert(s.push(w)[0] == w);
        assert(s.push(w).drop_first() =~= Seq::<char>::empty());
        assert(trim_start_ws(Seq::<char>::empty()) == Seq::<char>::empty());
    } else if is_white_space(s[0]) {
        assert(s.push(w)[0] == s[0]);
        lemma_trim_start_ws_push(s.drop_first(), w);
        assert(s.push(w).drop_first() =~= s.drop_first().push(w));
    } else {
        assert(s.push(w)[0] == s[0]);
    }
}

/// Whether every character of `s` is whitespace.
pub open spec fn all_white_space(s: Seq<char>) -> bool {
    forall|i: int| 0 <= i < s.len() ==> is_white_space(#[trigger] s[i])
}

/// Trimming a text that is surrounded by whitespace, and that neither starts nor ends with
/// whitespace itself, gives back the text.
pub proof fn lemma_trim_ws_surrounded(before: Seq<char>, s: Seq<char>, after: Seq<char>)
    requires
        all_white_space(before),
        all_white_space(after),
        s.len() > 0,
        !is_white_space(s[0]),
        !is_white_space(s.last()),
    ensures
        trim_ws(before + s + after) == s,
{
    lemma_trim_start_ws_white_prefix(before, s + after);
    assert(before + s + after =~= before + (s + after));
    assert((s + after)[0] == s[0]);
    lemma_trim_end_ws_white_suffix(s, after);
}

proof fn lemma_trim_start_ws_white_prefix(before: Seq<char>, s: Seq<char>)
    requires
        all_white_space(before),
        s.len() > 0,
        !is_white_space(s[0]),
    ensures
        trim_start_ws(before + s) == s,
    decreases before.len(),
{
    if before.len() == 0 {
        assert(before + s =~= s);
    } else {
        assert(is_white_space(before[0]));
        assert((before + s).drop_first() =~= before.drop_first() + s);
        assert forall|i: int| 0 <= i < before.drop_first().len() implies is_white_space(
            #[trigger] before.drop_first()[i],
        ) by {
            assert(before.drop_first()[i] == before[i + 1]);
        }
        lemma_trim_start_ws_white_prefix(before.drop_first(), s);
    }
}

proof fn lemma_trim_end_ws_white_suffix(s: Seq<char>, after: Seq<char>)
    requires
        all_white_space(after),
        s.len() > 0,
        !is_white_space(s.last()),
    ensures
        trim_end_ws(s + after) == s,
    decreases after.len(),
{
    if after.len() == 0 {
        assert(s + after =~= s);
    } else {
        assert(is_white_space(after.last()));
        assert((s + after).drop_last() =~= s + after.drop_last());
        assert forall|i: int| 0 <= i < after.drop_last().len() implies is_white_space(
            #[trigger] after.drop_last()[i],
        ) by {
            assert(after.drop_last()[i] == after[i]);
        }
        lemma_trim_end_ws_white_suffix(s, after.drop_last());
    }
}


/// A sequence that holds `c` has a first position of `c`.
pub proof fn lemma_first_index_exists(s: Seq<char>, c: char, i: int)
    requires
        0 <= i < s.len(),
        s[i] == c,
    ensures
        first_index(s, c) is Some,
    decreases i,
{
    if exists|j: int| 0 <= j < i && s[j] == c {
        let j = choose|j: int| 0 <= j < i && s[j] == c;
        lemma_first_index_exists(s, c, j);
    } else {
        assert(is_first_index(s, c, i));
    }
}


/// Among ASCII characters, whitespace is exactly tab, line feed, vertical tab, form feed,
/// carriage return and space; in particular no letter, digit or punctuation mark is
/// whitespace. Beyond ASCII, the whitespace characters are NEL, NO-BREAK SPACE,
/// OGHAM SPACE MARK, EN QUAD through HAIR SPACE, LINE and PARAGRAPH SEPARATOR, NARROW
/// NO-BREAK SPACE, MEDIUM MATHEMATICAL SPACE and IDEOGRAPHIC SPACE.
pub proof fn lemma_white_space_chars(c: char)
    ensures
        (c as u32) < 128 ==> (is_white_space(c) <==> (c == '\t' || c == '\n' || c == '\u{0B}'
            || c == '\u{0C}' || c == '\r' || c == ' ')),
        (c as u32) >= 128 ==> (is_white_space(c) <==> (c == '\u{85}' || c == '\u{A0}' || c
            == '\u{1680}' || ('\u{2000}' as u32 <= c as u32 <= '\u{200A}' as u32) || c
            == '\u{2028}' || c == '\u{2029}' || c == '\u{202F}' || c == '\u{205F}' || c
            == '\u{3000}')),
        ('0' as u32 <= c as u32 <= '9' as u32) || ('a' as u32 <= c as u32 <= 'z' as u32) || (
        'A' as u32 <= c as u32 <= 'Z' as u32) || c == '_' || c == '-' || c == '.' || c == '/'
            ==> !is_white_space(c),
{
}

/// What trimming leaves of `s`: the characters between a run of whitespace at the start
/// and a run of whitespace at the end, where the part that is left is empty or neither
/// starts nor ends with whitespace. The returned pair is where that part starts and ends.
pub proof fn lemma_trim_ws_bounds(s: Seq<char>) -> (bounds: (int, int))
    ensures
        0 <= bounds.0 <= bounds.1 <= s.len(),
        trim_ws(s) == s.subrange(bounds.0, bounds.1),
        forall|i: int| 0 <= i < bounds.0 ==> is_white_space(#[trigger] s[i]),
        forall|i: int| bounds.1 <= i < s.len() ==> is_white_space(#[trigger] s[i]),
        bounds.0 < bounds.1 ==> !is_white_space(s[bounds.0]) && !is_white_space(
            s[bounds.1 - 1],
        ),
        bounds.0 == bounds.1 ==> forall|i: int| 0 <= i < s.len() ==> is_white_space(
            #[trigger] s[i],
        ),
{
    let a = lemma_trim_start_ws_bound(s);
    let t = s.subrange(a, s.len() as int);
    let b = lemma_trim_end_ws_bound(t);
    assert(t.subrange(0, b) =~= s.subrange(a, a + b));
    assert forall|i: int| a + b <= i < s.len() implies is_white_space(#[trigger] s[i]) by {
        assert(s[i] == t[i - a]);
    }
    if b > 0 {
        assert(s[a] == t[0]);
        assert(s[a + b - 1] == t[b - 1]);
    }
    (a, a + b)
}

proof fn lemma_trim_start_ws_bound(s: Seq<char>) -> (a: int)
    ensures
        0 <= a <= s.len(),
        trim_start_ws(s) == s.subrange(a, s.len() as int),
        forall|i: int| 0 <= i < a ==> is_white_space(#[trigger] s[i]),
        a < s.len() ==> !is_white_space(s[a]),
    decreases s.len(),
{
    if s.len() > 0 && is_white_space(s[0]) {
        let a0 = lemma_trim_start_ws_bound(s.drop_first());
        assert(s.drop_first().subrange(a0, s.len() - 1) =~= s.subrange(a0 + 1, s.len() as int));
        assert forall|i: int| 0 <= i < a0 + 1 implies is_white_space(#[trigger] s[i]) by {
            if i > 0 {
                assert(s[i] == s.drop_first()[i - 1]);
            }
        }
        if a0 + 1 < s.len() {
            assert(s[a0 + 1] == s.drop_first()[a0]);
        }
        a0 + 1
    } else {
        assert(s.subrange(0, s.len() as int) =~= s);
        0
    }
}

proof fn lemma_trim_end_ws_bound(s: Seq<char>) -> (b: int)
    ensures
        0 <= b <= s.len(),
        trim_end_ws(s) == s.subrange(0, b),
        forall|i: int| b <= i < s.len() ==> is_white_space(#[trigger] s[i]),
        b > 0 ==> !is_white_space(s[b - 1]),
    decreases s.len(),
{
    if s.len() > 0 && is_white_space(s.last()) {
        let b0 = lemma_trim_end_ws_bound(s.drop_last());
        assert(s.drop_last().subrange(0, b0) =~= s.subrange(0, b0));
        assert forall|i: int| b0 <= i < s.len() implies is_white_space(#[trigger] s[i]) by {
            if i < s.len() - 1 {
                assert(s[i] == s.drop_last()[i]);
            }
        }
        if b0 > 0 {
            assert(s[b0 - 1] == s.drop_last()[b0 - 1]);
        }
        b0
    } else {
        assert(s.subrange(0, s.len() as int) =~= s);
        s.len() as int
    }
}

/// A text holds two dots in a row exactly when it is some text, then `..`, then some text.
pub proof fn lemma_dot_dot_split(s: Seq<char>, a: Seq<char>, b: Seq<char>)
    ensures
        has_dot_dot(a + seq!['.', '.'] + b),
        has_dot_dot(s) ==> exists|x: Seq<char>, y: Seq<char>| s == x + seq!['.', '.'] + y,
{
    let t = a + seq!['.', '.'] + b;
    let k = a.len() as int;
    assert(t[k] == '.' && t[k + 1] == '.');
    if has_dot_dot(s) {
        let i = choose|i: int| 0 <= i < s.len() - 1 && s[i] == '.' && #[trigger] s[i + 1] == '.';
        let x = s.subrange(0, i);
        let y = s.subrange(i + 2, s.len() as int);
        assert(s =~= x + seq!['.', '.'] + y);
    }
}

/// The first position of `c` in `s` is where `c` stands with no `c` before it, and there is
/// none exactly when `s` holds no `c`.
pub proof fn lemma_first_index_meaning(s: Seq<char>, c: char)
    ensures
        first_index(s, c) matches Some(i) ==> 0 <= i < s.len() && s[i] == c && forall|j: int|
            0 <= j < i ==> s[j] != c,
        first_index(s, c) is None <==> forall|j: int| 0 <= j < s.len() ==> s[j] != c,
{
    if first_index(s, c) is None {
        assert forall|j: int| 0 <= j < s.len() implies s[j] != c by {
            if s[j] == c {
                lemma_first_index_exists(s, c, j);
            }
        }
    } else {
        let i = choose|i: int| is_first_index(s, c, i);
        assert(is_first_index(s, c, i));
    }
}

} // verus!
