//! Character-level helpers: whitespace, word splitting, trimming and comparison.

use vstd::prelude::*;

verus! {

/// The characters with the Unicode `White_Space` property, the set that
/// `char::is_whitespace` recognises.
pub open spec fn is_ws(c: char) -> bool {
    let u = c as u32;
    ||| 0x09 <= u <= 0x0D
    ||| u == 0x20
    ||| u == 0x85
    ||| u == 0xA0
    ||| u == 0x1680
    ||| 0x2000 <= u <= 0x200A
    ||| u == 0x2028
    ||| u == 0x2029
    ||| u == 0x202F
    ||| u == 0x205F
    ||| u == 0x3000
}

/// Tests whether `c` separates words.
pub fn is_whitespace(c: char) -> (b: bool)
    ensures
        b == is_ws(c),
{
    let u = c as u32;
    (0x09 <= u && u <= 0x0D) || u == 0x20 || u == 0x85 || u == 0xA0 || u == 0x1680 || (0x2000
        <= u && u <= 0x200A) || u == 0x2028 || u == 0x2029 || u == 0x202F || u == 0x205F || u
        == 0x3000
}

/// Whether two strings hold the same characters.
pub fn str_eq(a: &str, b: &str) -> (r: bool)
    ensures
        r == (a@ == b@),
{
    let n = a.unicode_len();
    let m = b.unicode_len();
    if n != m {
        return false;
    }
    let mut i: usize = 0;
    while i < n
        invariant
            n == a@.len(),
            m == b@.len(),
            n == m,
            i <= n,
            forall|j: int| 0 <= j < i ==> a@[j] == b@[j],
        decreases n - i,
    {
        if a.get_char(i) != b.get_char(i) {
            return false;
        }
        i += 1;
    }
    assert(a@ =~= b@);
    true
}


/// The word that `cur` has gathered so far, as a list of zero or one words.
pub open spec fn flush_word(cur: Seq<char>) -> Seq<Seq<char>> {
    if cur.len() == 0 {
        seq![]
    } else {
        seq![cur]
    }
}

/// The words of `s` when a word `cur` is already under way: maximal runs of
/// characters that are not whitespace, in order.
pub open spec fn words_from(s: Seq<char>, cur: Seq<char>) -> Seq<Seq<char>>
    decreases s.len(),
{
    if s.len() == 0 {
        flush_word(cur)
    } else if is_ws(s[0]) {
        flush_word(cur) + words_from(s.drop_first(), seq![])
    } else {
        words_from(s.drop_first(), cur.push(s[0]))
    }
}

/// The whitespace-separated words of `s`, which is what `str::split_whitespace` yields.
pub open spec fn words(s: Seq<char>) -> Seq<Seq<char>> {
    words_from(s, seq![])
}

/// The views of a list of string slices.
pub open spec fn views_of(v: Seq<&str>) -> Seq<Seq<char>> {
    v.map_values(|w: &str| w@)
}

/// Splits `line` into its whitespace-separated words.
pub fn split_words(line: &str) -> (out: Vec<&str>)
    ensures
        views_of(out@) == words(line@),
{
    let n = line.unicode_len();
    let mut out: Vec<&str> = Vec::new();
    let mut start: usize = 0;
    let mut i: usize = 0;
    proof {
        assert(line@.skip(0) =~= line@);
        assert(line@.subrange(0, 0) =~= Seq::<char>::empty());
        assert(views_of(out@) =~= Seq::<Seq<char>>::empty());
    }
    while i < n
        invariant
            n == line@.len(),
            start <= i <= n,
            words(line@) == views_of(out@) + words_from(
                line@.skip(i as int),
                line@.subrange(start as int, i as int),
            ),
        decreases n - i,
    {
        let c = line.get_char(i);
        let ghost s = line@.skip(i as int);
        let ghost cur = line@.subrange(start as int, i as int);
        assert(s.drop_first() =~= line@.skip(i + 1));
        assert(s[0] == c);
        if is_whitespace(c) {
            let ghost before = views_of(out@);
            if start < i {
                out.push(line.substring_char(start, i));
                assert(views_of(out@) =~= before + flush_word(cur));
            } else {
                assert(cur =~= Seq::<char>::empty());
                assert(views_of(out@) =~= before + flush_word(cur));
            }
            start = i + 1;
            assert(line@.subrange(start as int, i + 1) =~= Seq::<char>::empty());
            assert(words(line@) == views_of(out@) + words_from(
                line@.skip(i + 1),
                line@.subrange(start as int, i + 1),
            )) by {
                assert(before + (flush_word(cur) + words_from(s.drop_first(), seq![])) =~= (before
                    + flush_word(cur)) + words_from(s.drop_first(), seq![]));
            }
        } else {
            assert(cur.push(c) =~= line@.subrange(start as int, i + 1));
        }
        i += 1;
    }
    let ghost cur = line@.subrange(start as int, n as int);
    let ghost before = views_of(out@);
    assert(line@.skip(n as int) =~= Seq::<char>::empty());
    if start < n {
        out.push(line.substring_char(start, n));
    }
    assert(views_of(out@) =~= before + flush_word(cur));
    out
}


/// `s` without its leading whitespace.
pub open spec fn trim_start(s: Seq<char>) -> Seq<char>
    decreases s.len(),
{
    if s.len() > 0 && is_ws(s[0]) {
        trim_start(s.drop_first())
    } else {
        s
    }
}

/// `s` without its trailing whitespace.
pub open spec fn trim_end(s: Seq<char>) -> Seq<char>
    decreases s.len(),
{
    if s.len() > 0 && is_ws(s.last()) {
        trim_end(s.drop_last())
    } else {
        s
    }
}

/// `s` without leading and trailing whitespace, as `str::trim` gives it.
pub open spec fn trim(s: Seq<char>) -> Seq<char> {
    trim_end(trim_start(s))
}

/// Removes leading and trailing whitespace from `s`.
pub fn trim_str(s: &str) -> (t: &str)
    ensures
        t@ == trim(s@),
{
    let n = s.unicode_len();
    let mut a: usize = 0;
    assert(s@.skip(0) =~= s@);
    while a < n && is_whitespace(s.get_char(a))
        invariant
            n == s@.len(),
            a <= n,
            trim_start(s@) == trim_start(s@.skip(a as int)),
        decreases n - a,
    {
        assert(s@.skip(a as int).drop_first() =~= s@.skip(a + 1));
        a += 1;
    }
    assert(trim_start(s@) == s@.skip(a as int)) by {
        if a == n {
            assert(s@.skip(a as int).len() == 0);
        }
    }
    let mut b: usize = n;
    assert(s@.subrange(a as int, n as int) =~= s@.skip(a as int));
    while b > a && is_whitespace(s.get_char(b - 1))
        invariant
            n == s@.len(),
            a <= b <= n,
            trim(s@) == trim_end(s@.subrange(a as int, b as int)),
        decreases b,
    {
        assert(s@.subrange(a as int, b as int).drop_last() =~= s@.subrange(a as int, b - 1));
        b -= 1;
    }
    s.substring_char(a, b)
}

/// The key and the value of a `key:value` word: the parts before and after
/// its first colon, or nothing when it holds no colon.
pub open spec fn split_kv(w: Seq<char>) -> Option<(Seq<char>, Seq<char>)> {
    if w.contains(':') {
        let p = choose|p: int| first_colon_at(w, p);
        Some((w.take(p), w.skip(p + 1)))
    } else {
        None
    }
}

/// `p` is the position of the first colon in `w`.
pub open spec fn first_colon_at(w: Seq<char>, p: int) -> bool {
    &&& 0 <= p < w.len()
    &&& w[p] == ':'
    &&& forall|j: int| 0 <= j < p ==> w[j] != ':'
}

proof fn lemma_words_trim_start(s: Seq<char>)
    ensures
        words(trim_start(s)) == words(s),
    decreases s.len(),
{
    if s.len() > 0 && is_ws(s[0]) {
        assert(flush_word(seq![]) + words_from(s.drop_first(), seq![]) =~= words(s.drop_first()));
        lemma_words_trim_start(s.drop_first());
    }
}

proof fn lemma_words_from_push_ws(s: Seq<char>, cur: Seq<char>, c: char)
    requires
        is_ws(c),
    ensures
        words_from(s.push(c), cur) == words_from(s, cur),
    decreases s.len(),
{
    let t = s.push(c);
    if s.len() == 0 {
        assert(t[0] == c);
        assert(t.drop_first() =~= Seq::<char>::empty());
        assert(words_from(t.drop_first(), seq![]) == flush_word(seq![]));
        assert(flush_word(cur) + flush_word(seq![]) =~= flush_word(cur));
        assert(words_from(t, cur) == flush_word(cur) + words_from(t.drop_first(), seq![]));
    } else {
        assert(t[0] == s[0]);
        assert(t.drop_first() =~= s.drop_first().push(c));
        if is_ws(s[0]) {
            lemma_words_from_push_ws(s.drop_first(), seq![], c);
        } else {
            lemma_words_from_push_ws(s.drop_first(), cur.push(s[0]), c);
        }
    }
}

proof fn lemma_words_trim_end(s: Seq<char>)
    ensures
        words(trim_end(s)) == words(s),
    decreases s.len(),
{
    if s.len() > 0 && is_ws(s.last()) {
        assert(s =~= s.drop_last().push(s.last()));
        lemma_words_from_push_ws(s.drop_last(), seq![], s.last());
        lemma_words_trim_end(s.drop_last());
    }
}

/// Whitespace at either end of a line separates no words: trimming keeps them.
pub proof fn law_trim_keeps_words(s: Seq<char>)
    ensures
        words(trim(s)) == words(s),
{
    lemma_words_trim_end(trim_start(s));
    lemma_words_trim_start(s);
}

proof fn lemma_first_colon_exists(w: Seq<char>, i: int)
    requires
        0 <= i < w.len(),
        w[i] == ':',
    ensures
        exists|p: int| first_colon_at(w, p),
    decreases i,
{
    if exists|j: int| 0 <= j < i && w[j] == ':' {
        let j = choose|j: int| 0 <= j < i && w[j] == ':';
        lemma_first_colon_exists(w, j);
    } else {
        assert(first_colon_at(w, i));
    }
}

/// A word that splits into a key and a value is the key, a colon and the
/// value; the key holds no colon.
pub proof fn law_split_kv_rejoins(w: Seq<char>)
    ensures
        split_kv(w) matches Some((k, v)) ==> w == k + seq![':'] + v && !k.contains(':'),
        split_kv(w) is None <==> !w.contains(':'),
{
    if w.contains(':') {
        let i = choose|i: int| 0 <= i < w.len() && w[i] == ':';
        lemma_first_colon_exists(w, i);
        let p = choose|p: int| first_colon_at(w, p);
        assert(w =~= w.take(p) + seq![':'] + w.skip(p + 1));
        assert(!w.take(p).contains(':')) by {
            if w.take(p).contains(':') {
                let j = choose|j: int| 0 <= j < w.take(p).len() && w.take(p)[j] == ':';
                assert(w[j] == ':');
            }
        }
    }
}

} // verus!
