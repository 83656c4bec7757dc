//! Text as a sequence of characters: trimming, searching, ordering, numbers.

use vstd::prelude::*;

verus! {

/// Whether `c` has the Unicode property `White_Space`.
pub open spec fn is_white_space(c: char) -> bool {
    ||| '\u{9}' <= c <= '\u{d}'
    ||| c == ' '
    ||| c == '\u{85}'
    ||| c == '\u{a0}'
    ||| c == '\u{1680}'
    ||| '\u{2000}' <= c <= '\u{200a}'
    ||| c == '\u{2028}'
    ||| c == '\u{2029}'
    ||| c == '\u{202f}'
    ||| c == '\u{205f}'
    ||| c == '\u{3000}'
}

/// `s` without its leading white space.
pub open spec fn trim_start(s: Seq<char>) -> Seq<char>
    decreases s.len(),
{
    if s.len() > 0 && is_white_space(s[0]) {
        trim_start(s.skip(1))
    } else {
        s
    }
}

/// `s` without its trailing white space.
pub open spec fn trim_end(s: Seq<char>) -> Seq<char>
    decreases s.len(),
{
    if s.len() > 0 && is_white_space(s.last()) {
        trim_end(s.drop_last())
    } else {
        s
    }
}

/// `s` without the white space around it.
pub open spec fn trim(s: Seq<char>) -> Seq<char> {
    trim_end(trim_start(s))
}

/// Neither the first nor the last character of `s` is white space.
pub open spec fn is_trimmed(s: Seq<char>) -> bool {
    s.len() > 0 ==> !is_white_space(s[0]) && !is_white_space(s.last())
}

/// `pattern` stands in `s` at position `i`.
pub open spec fn occurs_at(s: Seq<char>, pattern: Seq<char>, i: int) -> bool {
    &&& 0 <= i
    &&& i + pattern.len() <= s.len()
    &&& s.subrange(i, i + pattern.len()) == pattern
}

/// `pattern` stands somewhere in `s`.
pub open spec fn contains(s: Seq<char>, pattern: Seq<char>) -> bool {
    exists|i: int| #[trigger] occurs_at(s, pattern, i)
}

/// `pattern` stands in `s` at position `i` and at none before it.
pub open spec fn first_at(s: Seq<char>, pattern: Seq<char>, i: int) -> bool {
    &&& occurs_at(s, pattern, i)
    &&& forall|j: int| 0 <= j < i ==> !#[trigger] occurs_at(s, pattern, j)
}

/// The position of the first occurrence of `pattern` in `s`.
pub open spec fn find(s: Seq<char>, pattern: Seq<char>) -> Option<int> {
    if contains(s, pattern) {
        Some(choose|i: int| #[trigger] first_at(s, pattern, i))
    } else {
        None
    }
}

/// `s` begins with `prefix`.
pub open spec fn starts_with(s: Seq<char>, prefix: Seq<char>) -> bool {
    occurs_at(s, prefix, 0)
}

/// `a` stands before `b` in the order of code points, the first difference
/// deciding and a proper prefix standing before the longer text.
pub open spec fn precedes(a: Seq<char>, b: Seq<char>) -> bool {
    exists|k: int| #[trigger] precedes_at(a, b, k)
}

/// `a` and `b` agree up to position `k`, where `a` ends or has the smaller
/// character.
pub open spec fn precedes_at(a: Seq<char>, b: Seq<char>, k: int) -> bool {
    &&& 0 <= k <= a.len()
    &&& k < b.len()
    &&& forall|i: int| 0 <= i < k ==> #[trigger] a[i] == b[i]
    &&& k == a.len() || a[k] < b[k]
}

/// The decimal digit `d`.
pub open spec fn digit(d: nat) -> char {
    (48 + d) as char
}

/// `n` in decimal notation.
pub open spec fn decimal(n: nat) -> Seq<char>
    decreases n,
{
    if n < 10 {
        seq![digit(n)]
    } else {
        decimal(n / 10).push(digit(n % 10))
    }
}

/// The contents of a list of strings.
pub open spec fn texts(list: Seq<String>) -> Seq<Seq<char>> {
    list.map_values(|s: String| s@)
}

/// The contents of an optional string.
pub open spec fn optional_text(value: Option<String>) -> Option<Seq<char>> {
    match value {
        Some(s) => Some(s@),
        None => None,
    }
}

/// An optional text, trimmed. A blank one counts as none.
pub open spec fn meaningful(value: Option<Seq<char>>) -> Option<Seq<char>> {
    match value {
        Some(s) => if trim(s).len() == 0 {
            None
        } else {
            Some(trim(s))
        },
        None => None,
    }
}

/// `s` ends with `suffix`.
pub open spec fn ends_with(s: Seq<char>, suffix: Seq<char>) -> bool {
    occurs_at(s, suffix, s.len() - suffix.len())
}

/// Every element stands before the ones that follow it. So none occurs twice.
pub open spec fn is_ascending(list: Seq<Seq<char>>) -> bool {
    forall|i: int, j: int| 0 <= i < j < list.len() ==> #[trigger] precedes(list[i], list[j])
}

/// A text has a first occurrence of whatever occurs in it.
pub proof fn lemma_first_exists(s: Seq<char>, pattern: Seq<char>, i: int)
    requires
        occurs_at(s, pattern, i),
    ensures
        exists|j: int| #[trigger] first_at(s, pattern, j),
    decreases i,
{
    if exists|j: int| 0 <= j < i && #[trigger] occurs_at(s, pattern, j) {
        let j = choose|j: int| 0 <= j < i && #[trigger] occurs_at(s, pattern, j);
        lemma_first_exists(s, pattern, j);
    } else {
        assert(first_at(s, pattern, i));
    }
}

/// The position that `find` gives is the first one.
pub proof fn lemma_find_is_first(s: Seq<char>, pattern: Seq<char>)
    ensures
        match find(s, pattern) {
            Some(i) => first_at(s, pattern, i),
            None => !contains(s, pattern),
        },
{
    if contains(s, pattern) {
        let i = choose|i: int| #[trigger] occurs_at(s, pattern, i);
        lemma_first_exists(s, pattern, i);
    }
}

/// The first position is the one that `find` gives.
pub proof fn lemma_first_is_find(s: Seq<char>, pattern: Seq<char>, i: int)
    requires
        first_at(s, pattern, i),
    ensures
        find(s, pattern) == Some(i),
{
    lemma_find_is_first(s, pattern);
    assert(contains(s, pattern));
    let j = find(s, pattern).unwrap();
    assert(first_at(s, pattern, j));
    assert(i == j);
}

/// A text in front of another, in which no occurrence begins, only shifts the
/// first one.
pub proof fn lemma_find_behind(front: Seq<char>, back: Seq<char>, pattern: Seq<char>)
    requires
        forall|i: int| 0 <= i < front.len() ==> !#[trigger] occurs_at(front + back, pattern, i),
    ensures
        find(front + back, pattern) == match find(back, pattern) {
            Some(i) => Some(i + front.len()),
            None => None,
        },
{
    let whole = front + back;
    let n = front.len() as int;
    assert forall|j: int| #[trigger] occurs_at(whole, pattern, j) implies j >= n && occurs_at(
        back,
        pattern,
        j - n,
    ) by {
        assert(back.subrange(j - n, j - n + pattern.len()) =~= whole.subrange(
            j,
            j + pattern.len(),
        ));
    }
    lemma_find_is_first(back, pattern);
    if let Some(i) = find(back, pattern) {
        assert(whole.subrange(i + n, i + n + pattern.len()) =~= back.subrange(
            i,
            i + pattern.len(),
        ));
        assert(first_at(whole, pattern, i + n));
        lemma_first_is_find(whole, pattern, i + n);
    }
}

/// Where a single character first occurs.
pub proof fn lemma_find_char(s: Seq<char>, c: char, i: int)
    requires
        0 <= i < s.len(),
        s[i] == c,
        forall|j: int| 0 <= j < i ==> #[trigger] s[j] != c,
    ensures
        find(s, seq![c]) == Some(i),
{
    assert(s.subrange(i, i + 1) =~= seq![c]);
    assert forall|j: int| 0 <= j < i implies !#[trigger] occurs_at(s, seq![c], j) by {
        if occurs_at(s, seq![c], j) {
            assert(s.subrange(j, j + 1)[0] == c);
            assert(s[j] == c);
        }
    }
    assert(first_at(s, seq![c], i));
    lemma_first_is_find(s, seq![c], i);
}

/// What precedes the first occurrence of a character does not hold it.
pub proof fn lemma_before_found_char(s: Seq<char>, c: char)
    ensures
        match find(s, seq![c]) {
            Some(i) => 0 <= i < s.len() && s[i] == c && !s.take(i).contains(c),
            None => !s.contains(c),
        },
{
    lemma_find_is_first(s, seq![c]);
    match find(s, seq![c]) {
        Some(i) => {
            assert(s.subrange(i, i + 1)[0] == c);
            if s.take(i).contains(c) {
                let j = choose|j: int| 0 <= j < i && s.take(i)[j] == c;
                assert(s.subrange(j, j + 1) =~= seq![c]);
                assert(occurs_at(s, seq![c], j));
            }
        },
        None => {
            if s.contains(c) {
                let j = choose|j: int| 0 <= j < s.len() && s[j] == c;
                assert(s.subrange(j, j + 1) =~= seq![c]);
                assert(occurs_at(s, seq![c], j));
            }
        },
    }
}

/// Trimming gives a trimmed part of the text.
pub proof fn lemma_trim_is_trimmed(s: Seq<char>)
    ensures
        is_trimmed(trim(s)),
        trim(s).len() <= s.len(),
        forall|c: char| #[trigger] trim(s).contains(c) ==> s.contains(c),
{
    lemma_trim_start_shape(s);
    lemma_trim_end_shape(trim_start(s));
    let t = trim_start(s);
    let u = trim_end(t);
    if u.len() > 0 {
        assert(u[0] == t[0]);
    }
    assert forall|c: char| #[trigger] u.contains(c) implies s.contains(c) by {
        let i = choose|i: int| 0 <= i < u.len() && u[i] == c;
        assert(t[i] == c);
        assert(s[i + (s.len() - t.len())] == c);
    }
}

/// Leading white space is a prefix of the text.
pub proof fn lemma_trim_start_shape(s: Seq<char>)
    ensures
        trim_start(s).len() <= s.len(),
        trim_start(s) == s.skip(s.len() - trim_start(s).len()),
        trim_start(s).len() > 0 ==> !is_white_space(trim_start(s)[0]),
    decreases s.len(),
{
    if s.len() > 0 && is_white_space(s[0]) {
        lemma_trim_start_shape(s.skip(1));
        let t = trim_start(s);
        assert(s.skip(1).skip(s.len() - 1 - t.len()) =~= s.skip(s.len() - t.len()));
    } else {
        assert(s.skip(0) =~= s);
    }
}

/// Trailing white space is a suffix of the text.
pub proof fn lemma_trim_end_shape(s: Seq<char>)
    ensures
        trim_end(s).len() <= s.len(),
        trim_end(s) == s.take(trim_end(s).len() as int),
        trim_end(s).len() > 0 ==> !is_white_space(trim_end(s).last()),
    decreases s.len(),
{
    if s.len() > 0 && is_white_space(s.last()) {
        lemma_trim_end_shape(s.drop_last());
        let t = trim_end(s);
        assert(s.drop_last().take(t.len() as int) =~= s.take(t.len() as int));
    } else {
        assert(s.take(s.len() as int) =~= s);
    }
}

/// A trimmed text stays as it is.
pub proof fn lemma_trim_of_trimmed(s: Seq<char>)
    requires
        is_trimmed(s),
    ensures
        trim_start(s) == s,
        trim_end(s) == s,
        trim(s) == s,
{
}

/// White space in front changes nothing about the trimmed text.
pub proof fn lemma_trim_after_space(s: Seq<char>)
    ensures
        trim(seq![' '] + s) == trim(s),
{
    let t = seq![' '] + s;
    assert(t.skip(1) =~= s);
    assert(trim_start(t) == trim_start(s));
}

/// White space behind changes nothing about the trimmed text.
pub proof fn lemma_trim_before_space(s: Seq<char>)
    requires
        s.len() > 0,
        is_white_space(s.last()),
    ensures
        trim(s) == trim(s.drop_last()),
    decreases s.len(),
{
    let t = s.drop_last();
    if is_white_space(s[0]) {
        if s.len() > 1 {
            assert(s.skip(1).drop_last() =~= t.skip(1));
            lemma_trim_before_space(s.skip(1));
        } else {
            assert(s.skip(1) =~= t);
        }
    }
}

/// Trimming the end first changes nothing about the trimmed text.
pub proof fn lemma_trim_of_trim_end(s: Seq<char>)
    ensures
        trim(trim_end(s)) == trim(s),
    decreases s.len(),
{
    if s.len() > 0 && is_white_space(s.last()) {
        lemma_trim_before_space(s);
        lemma_trim_of_trim_end(s.drop_last());
    }
}

/// Trimming the end of a text whose front part ends in a visible character
/// touches only the back part.
pub proof fn lemma_trim_end_append(front: Seq<char>, back: Seq<char>)
    requires
        front.len() > 0,
        !is_white_space(front.last()),
    ensures
        trim_end(front + back) == front + trim_end(back),
    decreases back.len(),
{
    let s = front + back;
    if back.len() == 0 {
        assert(s =~= front);
        assert(front + trim_end(back) =~= front);
    } else {
        assert(s.last() == back.last());
        assert(s.drop_last() =~= front + back.drop_last());
        if is_white_space(back.last()) {
            lemma_trim_end_append(front, back.drop_last());
        }
    }
}

/// The order of texts is transitive.
pub proof fn lemma_precedes_transitive(a: Seq<char>, b: Seq<char>, c: Seq<char>)
    requires
        precedes(a, b),
        precedes(b, c),
    ensures
        precedes(a, c),
{
    let k = choose|k: int| #[trigger] precedes_at(a, b, k);
    let m = choose|k: int| #[trigger] precedes_at(b, c, k);
    let n = if k <= m { k } else { m };
    assert forall|i: int| 0 <= i < n implies #[trigger] a[i] == c[i] by {
        assert(a[i] == b[i]);
        assert(b[i] == c[i]);
    }
    if k < m {
        assert(b[k] == c[k]);
    } else if m < k {
        assert(a[m] == b[m]);
    }
    assert(precedes_at(a, c, n));
}

/// No text stands before itself.
pub proof fn lemma_precedes_irreflexive(a: Seq<char>)
    ensures
        !precedes(a, a),
{
}

/// Whatever stands before a text differs from it and does not follow it.
pub proof fn lemma_precedes_strict(a: Seq<char>, b: Seq<char>)
    requires
        precedes(a, b),
    ensures
        a != b,
        !precedes(b, a),
{
    if precedes(b, a) {
        lemma_precedes_transitive(a, b, a);
    }
    lemma_precedes_irreflexive(a);
}

/// Ascending lists of the same texts are the same.
pub proof fn lemma_ascending_is_unique(a: Seq<Seq<char>>, b: Seq<Seq<char>>)
    requires
        is_ascending(a),
        is_ascending(b),
        a.to_set() == b.to_set(),
    ensures
        a == b,
    decreases a.len(),
{
    if a.len() == 0 {
        if b.len() > 0 {
            assert(b.contains(b[0]));
            assert(a.to_set().contains(b[0]));
        }
        assert(a =~= b);
    } else {
        assert(a.contains(a.last()));
        assert(b.to_set().contains(a.last()));
        let k = choose|k: int| 0 <= k < b.len() && b[k] == a.last();
        assert(b.contains(b.last()));
        assert(a.to_set().contains(b.last()));
        let m = choose|m: int| 0 <= m < a.len() && a[m] == b.last();
        if k < b.len() - 1 && m < a.len() - 1 {
            assert(precedes(b[k], b[b.len() - 1]));
            assert(precedes(a[m], a[a.len() - 1]));
            lemma_precedes_strict(a.last(), b.last());
        }
        assert(a.last() == b.last());
        let c = a.drop_last();
        let d = b.drop_last();
        assert forall|i: int, j: int| 0 <= i < j < c.len() implies #[trigger] precedes(
            c[i],
            c[j],
        ) by {
            assert(precedes(a[i], a[j]));
        }
        assert forall|i: int, j: int| 0 <= i < j < d.len() implies #[trigger] precedes(
            d[i],
            d[j],
        ) by {
            assert(precedes(b[i], b[j]));
        }
        assert forall|t: Seq<char>| #[trigger] c.to_set().contains(t) <==> d.to_set().contains(
            t,
        ) by {
            if c.contains(t) {
                let i = choose|i: int| 0 <= i < c.len() && c[i] == t;
                assert(precedes(a[i], a[a.len() - 1]));
                lemma_precedes_strict(t, a.last());
                assert(a[i] == t);
                assert(a.to_set().contains(t));
                assert(b.contains(t));
                let j = choose|j: int| 0 <= j < b.len() && b[j] == t;
                assert(d[j] == t);
            }
            if d.contains(t) {
                let i = choose|i: int| 0 <= i < d.len() && d[i] == t;
                assert(precedes(b[i], b[b.len() - 1]));
                lemma_precedes_strict(t, b.last());
                assert(b[i] == t);
                assert(b.to_set().contains(t));
                assert(a.contains(t));
                let j = choose|j: int| 0 <= j < a.len() && a[j] == t;
                assert(c[j] == t);
            }
        }
        assert(c.to_set() =~= d.to_set());
        lemma_ascending_is_unique(c, d);
        assert(a =~= c.push(a.last()));
        assert(b =~= d.push(b.last()));
    }
}

/// A decimal notation is not empty and holds digits only.
pub proof fn lemma_decimal_digits(n: nat)
    ensures
        decimal(n).len() > 0,
        forall|i: int| 0 <= i < decimal(n).len() ==> '0' <= #[trigger] decimal(n)[i] <= '9',
    decreases n,
{
    if n >= 10 {
        lemma_decimal_digits(n / 10);
    }
}

/// Different numbers have different decimal notations.
pub proof fn lemma_decimal_injective(m: nat, n: nat)
    requires
        decimal(m) == decimal(n),
    ensures
        m == n,
    decreases m,
{
    lemma_decimal_digits(m / 10);
    lemma_decimal_digits(n / 10);
    assert(decimal(m).last() == digit(m % 10));
    assert(decimal(n).last() == digit(n % 10));
    if m >= 10 {
        assert(decimal(m).drop_last() =~= decimal(m / 10));
    }
    if n >= 10 {
        assert(decimal(n).drop_last() =~= decimal(n / 10));
    }
    if m >= 10 && n >= 10 {
        lemma_decimal_injective(m / 10, n / 10);
    }
}

/// The characters of `s`.
pub fn chars_of(s: &str) -> (chars: Vec<char>)
    ensures
        chars@ == s@,
{
    let mut chars: Vec<char> = Vec::new();
    for c in it: s.chars()
        invariant
            it.seq() == s@,
            chars@ == s@.take(it.index() as int),
    {
        chars.push(c);
        assert(chars@ =~= s@.take(it.index() + 1));
    }
    assert(s@.take(s@.len() as int) =~= s@);
    chars
}

/// Whether `c` is white space.
pub fn white_space(c: char) -> (yes: bool)
    ensures
        yes == is_white_space(c),
{
    ('\u{9}' <= c && c <= '\u{d}') || c == ' ' || c == '\u{85}' || c == '\u{a0}' || c == '\u{1680}'
        || ('\u{2000}' <= c && c <= '\u{200a}') || c == '\u{2028}' || c == '\u{2029}' || c
        == '\u{202f}' || c == '\u{205f}' || c == '\u{3000}'
}

/// The bounds of `chars[from..to]` without the white space around it.
pub fn trim_bounds(chars: &Vec<char>, from: usize, to: usize) -> (bounds: (usize, usize))
    requires
        from <= to <= chars@.len(),
    ensures
        from <= bounds.0 <= bounds.1 <= to,
        chars@.subrange(bounds.0 as int, bounds.1 as int) == trim(
            chars@.subrange(from as int, to as int),
        ),
{
    let mut a: usize = from;
    while a < to && white_space(chars[a])
        invariant
            from <= a <= to <= chars@.len(),
            trim_start(chars@.subrange(from as int, to as int)) == trim_start(
                chars@.subrange(a as int, to as int),
            ),
        decreases to - a,
    {
        assert(chars@.subrange(a as int, to as int).skip(1) =~= chars@.subrange(a + 1, to as int));
        a = a + 1;
    }
    let ghost middle = chars@.subrange(a as int, to as int);
    assert(trim_start(middle) == middle);
    let mut b: usize = to;
    while a < b && white_space(chars[b - 1])
        invariant
            a <= b <= to <= chars@.len(),
            trim_end(middle) == trim_end(chars@.subrange(a as int, b as int)),
        decreases b,
    {
        assert(chars@.subrange(a as int, b as int).drop_last() =~= chars@.subrange(
            a as int,
            b - 1,
        ));
        b = b - 1;
    }
    (a, b)
}

/// Whether `pattern` stands in `chars` at position `i`.
pub fn matches_at(chars: &Vec<char>, pattern: &Vec<char>, i: usize) -> (yes: bool)
    ensures
        yes == occurs_at(chars@, pattern@, i as int),
{
    let n: usize = chars.len();
    let m: usize = pattern.len();
    if n < m || n - m < i {
        return false;
    }
    let mut k: usize = 0;
    while k < m
        invariant
            k <= m,
            n == chars@.len(),
            m == pattern@.len(),
            i + m <= n,
            forall|j: int| 0 <= j < k ==> chars@[i + j] == #[trigger] pattern@[j],
        decreases m - k,
    {
        if chars[i + k] != pattern[k] {
            assert(chars@.subrange(i as int, i + pattern@.len())[k as int] == chars@[i + k]);
            return false;
        }
        k = k + 1;
    }
    assert(chars@.subrange(i as int, i + pattern@.len()) =~= pattern@);
    true
}

/// The first position, at or after `from`, at which `pattern` stands in `chars`.
pub fn find_from(chars: &Vec<char>, pattern: &Vec<char>, from: usize) -> (found: Option<usize>)
    requires
        from <= chars@.len(),
    ensures
        match found {
            Some(i) => from <= i && i + pattern@.len() <= chars@.len() && find(
                chars@.skip(from as int),
                pattern@,
            ) == Some(i - from),
            None => find(chars@.skip(from as int), pattern@) is None,
        },
{
    let n: usize = chars.len();
    let m: usize = pattern.len();
    if n < m || n - m < from {
        return None;
    }
    let ghost rest = chars@.skip(from as int);
    let last: usize = n - m;
    let mut i: usize = from;
    loop
        invariant
            n == chars@.len(),
            m == pattern@.len(),
            last + m == n,
            from <= i <= last,
            rest == chars@.skip(from as int),
            forall|j: int| 0 <= j < i - from ==> !#[trigger] occurs_at(rest, pattern@, j),
        decreases last - i,
    {
        let ghost k: int = i - from;
        assert(rest.subrange(k, k + m) =~= chars@.subrange(i as int, i + m));
        if matches_at(chars, pattern, i) {
            proof {
                assert(occurs_at(rest, pattern@, k));
                lemma_first_is_find(rest, pattern@, k);
            }
            return Some(i);
        }
        assert(!occurs_at(rest, pattern@, k));
        if i == last {
            return None;
        }
        i = i + 1;
    }
}

/// `s` without the white space around it.
pub fn trimmed(s: &str) -> (t: String)
    ensures
        t@ == trim(s@),
{
    let chars = chars_of(s);
    let n: usize = chars.len();
    let (a, b) = trim_bounds(&chars, 0, n);
    assert(chars@.subrange(0, n as int) =~= s@);
    s.substring_char(a, b).to_owned()
}

/// Trims an optional text, and drops a blank one.
pub fn meaningful_text(value: Option<String>) -> (text: Option<String>)
    ensures
        optional_text(text) == meaningful(optional_text(value)),
{
    match value {
        Some(s) => if is_blank(s.as_str()) {
            None
        } else {
            Some(trimmed(s.as_str()))
        },
        None => None,
    }
}

/// Whether `s` holds nothing but white space.
pub fn is_blank(s: &str) -> (yes: bool)
    ensures
        yes == (trim(s@).len() == 0),
{
    let chars = chars_of(s);
    let n: usize = chars.len();
    let (a, b) = trim_bounds(&chars, 0, n);
    assert(chars@.subrange(0, n as int) =~= s@);
    a == b
}

/// Whether `pattern` stands somewhere in `s`.
pub fn contains_text(s: &str, pattern: &str) -> (yes: bool)
    ensures
        yes == contains(s@, pattern@),
{
    let chars = chars_of(s);
    let wanted = chars_of(pattern);
    let found = find_from(&chars, &wanted, 0);
    proof {
        assert(chars@.skip(0) =~= s@);
        lemma_find_is_first(s@, pattern@);
    }
    found.is_some()
}

/// How two texts stand to each other.
#[derive(Clone, Copy, Debug, PartialEq, Eq, Structural)]
pub enum TextOrder {
    /// The first stands before the second.
    Before,
    /// They are the same.
    Same,
    /// The first stands after the second.
    After,
}

/// Compares two texts by code points.
pub fn text_order(a: &str, b: &str) -> (order: TextOrder)
    ensures
        match order {
            TextOrder::Before => precedes(a@, b@),
            TextOrder::Same => a@ == b@,
            TextOrder::After => precedes(b@, a@),
        },
{
    let x = chars_of(a);
    let y = chars_of(b);
    let mut k: usize = 0;
    while k < x.len() && k < y.len()
        invariant
            x@ == a@,
            y@ == b@,
            k <= x@.len(),
            k <= y@.len(),
            forall|i: int| 0 <= i < k ==> #[trigger] a@[i] == b@[i],
        decreases x@.len() - k,
    {
        let c: char = x[k];
        let d: char = y[k];
        if c < d {
            assert(precedes_at(a@, b@, k as int));
            return TextOrder::Before;
        }
        if d < c {
            assert(precedes_at(b@, a@, k as int));
            return TextOrder::After;
        }
        k = k + 1;
    }
    if k < y.len() {
        assert(precedes_at(a@, b@, k as int));
        TextOrder::Before
    } else if k < x.len() {
        assert(precedes_at(b@, a@, k as int));
        TextOrder::After
    } else {
        assert(a@ =~= b@);
        TextOrder::Same
    }
}

/// Whether two texts are the same.
pub fn same_text(a: &str, b: &str) -> (yes: bool)
    ensures
        yes == (a@ == b@),
{
    match text_order(a, b) {
        TextOrder::Same => true,
        TextOrder::Before => {
            proof {
                lemma_precedes_strict(a@, b@);
            }
            false
        },
        TextOrder::After => {
            proof {
                lemma_precedes_strict(b@, a@);
            }
            false
        },
    }
}

/// Puts `item` into an ascending list, at its place, unless it is there already.
pub fn insert_ascending(list: &mut Vec<String>, item: String)
    requires
        is_ascending(texts(old(list)@)),
    ensures
        is_ascending(texts(final(list)@)),
        texts(final(list)@).to_set() == texts(old(list)@).to_set().insert(item@),
{
    let ghost before = texts(list@);
    let mut i: usize = 0;
    while i < list.len()
        invariant
            before == texts(list@),
            list@ == old(list)@,
            i <= list@.len(),
            is_ascending(before),
            forall|j: int| 0 <= j < i ==> #[trigger] precedes(before[j], item@),
        decreases list@.len() - i,
    {
        match text_order(list[i].as_str(), item.as_str()) {
            TextOrder::Before => {
                assert(precedes(before[i as int], item@));
                i = i + 1;
            },
            TextOrder::Same => {
                proof {
                    assert(before[i as int] == item@);
                    assert(before.to_set().insert(item@) =~= before.to_set());
                }
                return;
            },
            TextOrder::After => {
                proof {
                    lemma_insert_ascending(before, item@, i as int);
                    assert(texts(list@.insert(i as int, item)) =~= before.insert(i as int, item@));
                }
                list.insert(i, item);
                return;
            },
        }
    }
    proof {
        lemma_insert_ascending(before, item@, i as int);
        assert(texts(list@.push(item)) =~= before.insert(i as int, item@));
    }
    list.push(item);
}

/// A text put between the smaller and the larger ones keeps a list ascending.
pub proof fn lemma_insert_ascending(list: Seq<Seq<char>>, item: Seq<char>, i: int)
    requires
        is_ascending(list),
        0 <= i <= list.len(),
        forall|j: int| 0 <= j < i ==> #[trigger] precedes(list[j], item),
        i < list.len() ==> precedes(item, list[i]),
    ensures
        is_ascending(list.insert(i, item)),
        list.insert(i, item).to_set() == list.to_set().insert(item),
{
    let longer = list.insert(i, item);
    assert forall|j: int| i <= j < list.len() implies #[trigger] precedes(item, list[j]) by {
        if i < j {
            assert(precedes(list[i], list[j]));
            lemma_precedes_transitive(item, list[i], list[j]);
        }
    }
    assert forall|a: int, b: int| 0 <= a < b < longer.len() implies #[trigger] precedes(
        longer[a],
        longer[b],
    ) by {
        if b < i {
            assert(precedes(list[a], list[b]));
        } else if b == i {
            assert(precedes(list[a], item));
        } else if a < i {
            assert(precedes(list[a], list[b - 1]));
        } else if a == i {
            assert(precedes(item, list[b - 1]));
        } else {
            assert(precedes(list[a - 1], list[b - 1]));
        }
    }
    assert forall|t: Seq<char>| #[trigger] longer.contains(t) <==> list.contains(t) || t == item by {
        if list.contains(t) {
            let k = choose|k: int| 0 <= k < list.len() && list[k] == t;
            if k < i {
                assert(longer[k] == t);
            } else {
                assert(longer[k + 1] == t);
            }
        }
        if t == item {
            assert(longer[i] == t);
        }
        if longer.contains(t) && t != item {
            let k = choose|k: int| 0 <= k < longer.len() && longer[k] == t;
            if k < i {
                assert(list[k] == t);
            } else {
                assert(list[k - 1] == t);
            }
        }
    }
    assert(longer.to_set() =~= list.to_set().insert(item));
}

/// The digit `d` as text.
fn digit_text(d: u64) -> (t: &'static str)
    requires
        d < 10,
    ensures
        t@ == seq![digit(d as nat)],
{
    proof {
        reveal_strlit("0");
        reveal_strlit("1");
        reveal_strlit("2");
        reveal_strlit("3");
        reveal_strlit("4");
        reveal_strlit("5");
        reveal_strlit("6");
        reveal_strlit("7");
        reveal_strlit("8");
        reveal_strlit("9");
    }
    let t = if d == 0 {
        "0"
    } else if d == 1 {
        "1"
    } else if d == 2 {
        "2"
    } else if d == 3 {
        "3"
    } else if d == 4 {
        "4"
    } else if d == 5 {
        "5"
    } else if d == 6 {
        "6"
    } else if d == 7 {
        "7"
    } else if d == 8 {
        "8"
    } else {
        "9"
    };
    assert(t@ =~= seq![digit(d as nat)]);
    t
}

/// `n` in decimal notation.
pub fn decimal_text(n: u64) -> (t: String)
    ensures
        t@ == decimal(n as nat),
    decreases n,
{
    if n < 10 {
        digit_text(n).to_owned()
    } else {
        let mut t = decimal_text(n / 10);
        t.append(digit_text(n % 10));
        assert(t@ =~= decimal(n as nat));
        t
    }
}

/// Trimming takes the white space around a text, all of it and nothing else.
pub proof fn law_trim_keeps_the_middle(a: Seq<char>, t: Seq<char>, b: Seq<char>)
    requires
        forall|i: int| 0 <= i < a.len() ==> is_white_space(#[trigger] a[i]),
        forall|i: int| 0 <= i < b.len() ==> is_white_space(#[trigger] b[i]),
        t.len() > 0 ==> !is_white_space(t[0]) && !is_white_space(t[t.len() - 1]),
    ensures
        trim(a + t + b) == t,
{
    assert(a + t + b =~= a + (t + b));
    lemma_trim_start_behind(a, t + b);
    if t.len() > 0 {
        assert((t + b)[0] == t[0]);
        assert(trim_start(t + b) == t + b);
        lemma_trim_end_before(t, b);
        assert(trim_end(t) == t);
    } else {
        assert(t + b =~= b + Seq::<char>::empty());
        lemma_trim_start_behind(b, Seq::<char>::empty());
        assert(trim_end(Seq::<char>::empty()) == Seq::<char>::empty());
        assert(t =~= Seq::<char>::empty());
    }
}

/// Leading white space is skipped.
pub proof fn lemma_trim_start_behind(a: Seq<char>, s: Seq<char>)
    requires
        forall|i: int| 0 <= i < a.len() ==> is_white_space(#[trigger] a[i]),
    ensures
        trim_start(a + s) == trim_start(s),
    decreases a.len(),
{
    if a.len() == 0 {
        assert(a + s =~= s);
    } else {
        assert((a + s)[0] == a[0]);
        assert((a + s).skip(1) =~= a.skip(1) + s);
        lemma_trim_start_behind(a.skip(1), s);
    }
}

/// Trailing white space is skipped.
proof fn lemma_trim_end_before(s: Seq<char>, b: Seq<char>)
    requires
        forall|i: int| 0 <= i < b.len() ==> is_white_space(#[trigger] b[i]),
    ensures
        trim_end(s + b) == trim_end(s),
    decreases b.len(),
{
    if b.len() == 0 {
        assert(s + b =~= s);
    } else {
        assert((s + b).last() == b.last());
        assert(is_white_space(b[b.len() - 1]));
        assert((s + b).drop_last() =~= s + b.drop_last());
        lemma_trim_end_before(s, b.drop_last());
    }
}

/// What is skipped in front of a text is white space.
pub proof fn lemma_skipped_is_white_space(s: Seq<char>)
    ensures
        trim_start(s).len() <= s.len(),
        forall|i: int|
            0 <= i < s.len() - trim_start(s).len() ==> is_white_space(#[trigger] s[i]),
    decreases s.len(),
{
    if s.len() > 0 && is_white_space(s[0]) {
        lemma_skipped_is_white_space(s.skip(1));
        assert forall|i: int| 0 <= i < s.len() - trim_start(s).len() implies is_white_space(
            #[trigger] s[i],
        ) by {
            if i > 0 {
                assert(s.skip(1)[i - 1] == s[i]);
            }
        }
    }
}

/// An optional text that says something is kept without the white space around
/// it, and one that says nothing is none.
pub proof fn law_meaningful_text_is_kept(a: Seq<char>, t: Seq<char>, b: Seq<char>)
    requires
        forall|i: int| 0 <= i < a.len() ==> is_white_space(#[trigger] a[i]),
        forall|i: int| 0 <= i < b.len() ==> is_white_space(#[trigger] b[i]),
        t.len() > 0 ==> !is_white_space(t[0]) && !is_white_space(t[t.len() - 1]),
    ensures
        t.len() > 0 ==> meaningful(Some(a + t + b)) == Some(t),
        t.len() == 0 ==> meaningful(Some(a + t + b)) is None,
        meaningful(None) is None,
{
    law_trim_keeps_the_middle(a, t, b);
}

/// A pattern stands at a position exactly where the text is what precedes it, the
/// pattern, and what follows.
pub proof fn law_occurrence_splits_text(s: Seq<char>, pattern: Seq<char>, i: int)
    ensures
        occurs_at(s, pattern, i) <==> 0 <= i && i + pattern.len() <= s.len() && s == s.take(i)
            + pattern + s.skip(i + pattern.len()),
{
    if 0 <= i && i + pattern.len() <= s.len() {
        let whole = s.take(i) + pattern + s.skip(i + pattern.len());
        if occurs_at(s, pattern, i) {
            assert forall|k: int| 0 <= k < s.len() implies s[k] == whole[k] by {
                if i <= k < i + pattern.len() {
                    assert(s.subrange(i, i + pattern.len())[k - i] == s[k]);
                }
            }
            assert(s =~= whole);
        }
        if s == whole {
            assert(s.subrange(i, i + pattern.len()) =~= pattern) by {
                assert forall|k: int| 0 <= k < pattern.len() implies #[trigger] s.subrange(
                    i,
                    i + pattern.len(),
                )[k] == pattern[k] by {
                    assert(whole[i + k] == pattern[k]);
                }
            }
        }
    }
}

/// A text contains a pattern exactly where it is some text, the pattern, and some
/// text.
pub proof fn law_contained_text_splits(s: Seq<char>, pattern: Seq<char>)
    ensures
        contains(s, pattern) <==> exists|a: Seq<char>, b: Seq<char>| s == #[trigger] (a + pattern
            + b),
{
    if contains(s, pattern) {
        let i = choose|i: int| #[trigger] occurs_at(s, pattern, i);
        law_occurrence_splits_text(s, pattern, i);
        assert(s == s.take(i) + pattern + s.skip(i + pattern.len()));
    }
    if exists|a: Seq<char>, b: Seq<char>| s == #[trigger] (a + pattern + b) {
        let (a, b) = choose|a: Seq<char>, b: Seq<char>| s == #[trigger] (a + pattern + b);
        assert(s.subrange(a.len() as int, (a.len() + pattern.len()) as int) =~= pattern);
        assert(occurs_at(s, pattern, a.len() as int));
    }
}

/// A pattern is found where it first begins, and nowhere where it does not occur.
pub proof fn law_first_occurrence_is_found(a: Seq<char>, pattern: Seq<char>, b: Seq<char>)
    requires
        forall|i: int| 0 <= i < a.len() ==> !#[trigger] occurs_at(a + pattern + b, pattern, i),
    ensures
        find(a + pattern + b, pattern) == Some(a.len() as int),
        forall|s: Seq<char>| #[trigger] find(s, pattern) is None <==> !contains(s, pattern),
{
    let s = a + pattern + b;
    assert(s.subrange(a.len() as int, (a.len() + pattern.len()) as int) =~= pattern);
    assert(first_at(s, pattern, a.len() as int));
    lemma_first_is_find(s, pattern, a.len() as int);
}

/// A text begins with a prefix exactly where it is the prefix and some text, and
/// likewise at its end.
pub proof fn law_beginnings_and_ends(a: Seq<char>, b: Seq<char>, s: Seq<char>)
    ensures
        starts_with(a + b, a),
        ends_with(a + b, b),
        starts_with(s, a) ==> s == a + s.skip(a.len() as int),
        ends_with(s, b) ==> s == s.take(s.len() - b.len()) + b,
{
    assert((a + b).subrange(0, a.len() as int) =~= a);
    assert((a + b).subrange(a.len() as int, (a.len() + b.len()) as int) =~= b);
    law_occurrence_splits_text(s, a, 0);
    law_occurrence_splits_text(s, b, s.len() - b.len());
    if starts_with(s, a) {
        assert(s.take(0) + a + s.skip(a.len() as int) =~= a + s.skip(a.len() as int));
    }
    if ends_with(s, b) {
        assert(s.skip(s.len() as int) =~= Seq::<char>::empty());
        assert(s.take(s.len() - b.len()) + b + Seq::<char>::empty() =~= s.take(s.len() - b.len())
            + b);
    }
}

/// Texts are ordered by their first different character, and a text stands before
/// its continuations.
pub proof fn law_first_difference_orders(
    front: Seq<char>,
    x: char,
    y: char,
    a: Seq<char>,
    b: Seq<char>,
)
    requires
        x < y,
    ensures
        precedes(front + seq![x] + a, front + seq![y] + b),
        !precedes(front + seq![y] + b, front + seq![x] + a),
        precedes(front, front + seq![x] + a),
        !precedes(front + seq![x] + a, front),
        !precedes(front, front),
{
    let p = front + seq![x] + a;
    let q = front + seq![y] + b;
    let n = front.len() as int;
    assert(precedes_at(p, q, n)) by {
        assert forall|i: int| 0 <= i < n implies #[trigger] p[i] == q[i] by {
            assert(p[i] == front[i] && q[i] == front[i]);
        }
    }
    assert(precedes_at(front, p, n)) by {
        assert forall|i: int| 0 <= i < n implies #[trigger] front[i] == p[i] by {}
    }
    lemma_precedes_irreflexive(front);
    if precedes(q, p) {
        lemma_precedes_transitive(p, q, p);
        lemma_precedes_irreflexive(p);
    }
    if precedes(p, front) {
        lemma_precedes_transitive(front, p, front);
    }
}

/// A list is ascending exactly where each element stands before every later one.
pub proof fn law_ascending_is_pairwise(list: Seq<Seq<char>>)
    ensures
        is_ascending(list) <==> (forall|i: int, j: int|
            0 <= i < j < list.len() ==> precedes(#[trigger] list[i], #[trigger] list[j])),
{
    if forall|i: int, j: int|
        0 <= i < j < list.len() ==> precedes(#[trigger] list[i], #[trigger] list[j]) {
        assert forall|i: int, j: int| 0 <= i < j < list.len() implies #[trigger] precedes(
            list[i],
            list[j],
        ) by {
            let x = list[i];
            let y = list[j];
        }
    }
}

/// The number that digits stand for.
pub open spec fn digits_value(digits: Seq<char>) -> int
    decreases digits.len(),
{
    if digits.len() == 0 {
        0
    } else {
        10 * digits_value(digits.drop_last()) + (digits.last() as int - '0' as int)
    }
}

/// A decimal notation stands for its number, and has no needless zero in front.
pub proof fn law_decimal_stands_for_number(n: nat)
    ensures
        digits_value(decimal(n)) == n,
        decimal(n).len() > 0,
        forall|i: int| 0 <= i < decimal(n).len() ==> '0' <= #[trigger] decimal(n)[i] <= '9',
        n > 0 ==> decimal(n)[0] != '0',
    decreases n,
{
    lemma_decimal_digits(n);
    if n < 10 {
        let digits = decimal(n);
        assert(digits.drop_last() =~= Seq::<char>::empty());
        assert(digits_value(Seq::<char>::empty()) == 0);
    } else {
        law_decimal_stands_for_number(n / 10);
        assert(decimal(n).drop_last() =~= decimal(n / 10));
        assert(decimal(n)[0] == decimal(n / 10)[0]);
    }
}

/// What lists of strings and optional strings hold is what their strings hold.
pub proof fn law_strings_show_their_texts(list: Seq<String>, value: String)
    ensures
        texts(list).len() == list.len(),
        forall|i: int| 0 <= i < list.len() ==> #[trigger] texts(list)[i] == list[i]@,
        optional_text(Some(value)) == Some(value@),
        optional_text(None) is None,
{
}

} // verus!
