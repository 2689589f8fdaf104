//! Character-level text handling shared by the parsers of this crate:
//! line splitting as `str::lines` does it, whitespace splitting as
//! `str::split_whitespace` does it, trimming, and building `String`s.
use vstd::prelude::*;

verus! {

// ---------------------------------------------------------------------------
// Unicode whitespace (std's `char::is_whitespace`)
// ---------------------------------------------------------------------------

/// Whether `c` has the Unicode `White_Space` property, which is what
/// `char::is_whitespace` tests: the ASCII blanks from tab to carriage return,
/// the space, next line, no-break space, the ogham space mark, the spaces
/// from en quad to hair space, the line and paragraph separators, the narrow
/// no-break space, the medium mathematical space and the ideographic space.
pub open spec fn unicode_whitespace(c: char) -> bool {
    let n = c as u32;
    ||| 0x09 <= n <= 0x0D
    ||| n == 0x20
    ||| n == 0x85
    ||| n == 0xA0
    ||| n == 0x1680
    ||| 0x2000 <= n <= 0x200A
    ||| n == 0x2028
    ||| n == 0x2029
    ||| n == 0x202F
    ||| n == 0x205F
    ||| n == 0x3000
}

/// Whether `c` is whitespace, as `char::is_whitespace` decides it.
pub fn char_is_whitespace(c: char) -> (r: bool)
    ensures
        r == unicode_whitespace(c),
{
    let n = c as u32;
    (0x09 <= n && n <= 0x0D) || n == 0x20 || n == 0x85 || n == 0xA0 || n == 0x1680 || (0x2000 <= n && n
        <= 0x200A) || n == 0x2028 || n == 0x2029 || n == 0x202F || n == 0x205F || n == 0x3000
}

/// `s` in lower case, as `str::to_lowercase` gives it.
pub uninterp spec fn unicode_lowercase(s: Seq<char>) -> Seq<char>;

/// Calls `str::to_lowercase`; the result is named, as Unicode's case
/// mapping decides it.
#[verifier::external_body]
pub(crate) fn to_lowercase(s: &str) -> (r: String)
    ensures
        r@ == unicode_lowercase(s@),
{
    s.to_lowercase()
}

/// Appends one character (std's `String::push`).
#[verifier::external_body]
pub(crate) fn push_char(s: &mut String, c: char)
    ensures
        final(s)@ == old(s)@.push(c),
{
    s.push(c);
}

// ---------------------------------------------------------------------------
// Conversions
// ---------------------------------------------------------------------------

/// The characters of `s`, in order.
pub fn chars_of(s: &str) -> (r: Vec<char>)
    ensures
        r@ == s@,
{
    let n = s.unicode_len();
    let mut r: Vec<char> = Vec::new();
    let mut i: usize = 0;
    while i < n
        invariant
            n == s@.len(),
            i <= n,
            r@ == s@.take(i as int),
        decreases n - i,
    {
        let c = s.get_char(i);
        r.push(c);
        i = i + 1;
        assert(r@ =~= s@.take(i as int));
    }
    assert(r@ =~= s@);
    r
}

/// A `String` holding the characters `v[from..to]`.
pub fn string_of_range(v: &Vec<char>, from: usize, to: usize) -> (r: String)
    requires
        from <= to <= v@.len(),
    ensures
        r@ == v@.subrange(from as int, to as int),
{
    let mut r = String::new();
    let mut i = from;
    while i < to
        invariant
            from <= i <= to,
            to <= v@.len(),
            r@ == v@.subrange(from as int, i as int),
        decreases to - i,
    {
        push_char(&mut r, v[i]);
        i = i + 1;
        assert(r@ =~= v@.subrange(from as int, i as int));
    }
    r
}

/// A `String` holding the characters of `v`.
pub fn string_of(v: &Vec<char>) -> (r: String)
    ensures
        r@ == v@,
{
    let r = string_of_range(v, 0, v.len());
    assert(v@.subrange(0, v@.len() as int) =~= v@);
    r
}

/// Appends the characters of `t` to `s`.
pub fn push_seq(s: &mut String, t: &str)
    ensures
        final(s)@ == old(s)@ + t@,
{
    let v = chars_of(t);
    let mut i: usize = 0;
    while i < v.len()
        invariant
            v@ == t@,
            i <= v@.len(),
            s@ == old(s)@ + t@.take(i as int),
        decreases v@.len() - i,
    {
        push_char(s, v[i]);
        i = i + 1;
        assert(s@ =~= old(s)@ + t@.take(i as int));
    }
    assert(t@.take(v@.len() as int) =~= t@);
}

// ---------------------------------------------------------------------------
// Searching
// ---------------------------------------------------------------------------

/// The index of the first `c` in `s`, or -1 when there is none.
pub open spec fn find_char(s: Seq<char>, c: char) -> int
    decreases s.len(),
{
    if s.len() == 0 {
        -1
    } else if s[0] == c {
        0
    } else {
        let r = find_char(s.drop_first(), c);
        if r < 0 {
            -1
        } else {
            r + 1
        }
    }
}

pub proof fn lemma_find_char(s: Seq<char>, c: char, k: int)
    requires
        0 <= k <= s.len(),
        forall|j: int| 0 <= j < k ==> s[j] != c,
    ensures
        k < s.len() && s[k] == c ==> find_char(s, c) == k,
        k == s.len() ==> find_char(s, c) == -1,
    decreases k,
{
    if k > 0 {
        lemma_find_char(s.drop_first(), c, k - 1);
    }
}

// ---------------------------------------------------------------------------
// Lines
// ---------------------------------------------------------------------------

pub proof fn lemma_find_char_bounds(s: Seq<char>, c: char)
    ensures
        -1 <= find_char(s, c) < s.len(),
    decreases s.len(),
{
    if s.len() > 0 {
        lemma_find_char_bounds(s.drop_first(), c);
    }
}

/// `t` without one trailing carriage return.
pub open spec fn strip_cr(t: Seq<char>) -> Seq<char> {
    if t.len() > 0 && t.last() == '\r' {
        t.drop_last()
    } else {
        t
    }
}

/// The lines of `s` as `str::lines` yields them: pieces ended by a line
/// feed, with a carriage return right before that line feed dropped; a last
/// piece with no line feed after it is kept as it is, and an empty rest gives
/// no line.
pub open spec fn lines_of(s: Seq<char>) -> Seq<Seq<char>>
    decreases s.len(),
{
    if s.len() == 0 {
        seq![]
    } else {
        let k = find_char(s, '\n');
        proof {
            lemma_find_char_bounds(s, '\n');
        }
        if k < 0 {
            seq![s]
        } else {
            seq![strip_cr(s.take(k))] + lines_of(s.skip(k + 1))
        }
    }
}

/// Splits `v` into its lines (see `lines_of`); each line is given as the pair
/// of its start and end index in `v`.
pub fn line_ranges(v: &Vec<char>) -> (r: Vec<(usize, usize)>)
    ensures
        r@.len() == lines_of(v@).len(),
        forall|i: int|
            #![trigger r@[i]]
            0 <= i < r@.len() ==> r@[i].0 <= r@[i].1 <= v@.len() && lines_of(v@)[i]
                == v@.subrange(r@[i].0 as int, r@[i].1 as int),
{
    let n = v.len();
    let mut r: Vec<(usize, usize)> = Vec::new();
    let mut start: usize = 0;
    let mut i: usize = 0;
    let ghost done: Seq<Seq<char>> = seq![];
    assert(v@.skip(0) =~= v@);
    while i < n
        invariant
            n == v@.len(),
            start <= i <= n,
            forall|j: int| start <= j < i ==> v@[j] != '\n',
            lines_of(v@) == done + lines_of(v@.skip(start as int)),
            r@.len() == done.len(),
            forall|k: int|
                #![trigger r@[k]]
                0 <= k < r@.len() ==> r@[k].0 <= r@[k].1 <= n && done[k]
                    == v@.subrange(r@[k].0 as int, r@[k].1 as int),
        decreases n - i,
    {
        if v[i] == '\n' {
            let ghost rest = v@.skip(start as int);
            proof {
                lemma_find_char(rest, '\n', (i - start) as int);
                assert(rest.take((i - start) as int) =~= v@.subrange(start as int, i as int));
                assert(rest.skip((i - start) + 1) =~= v@.skip(i + 1));
            }
            let end = if i > start && v[i - 1] == '\r' {
                i - 1
            } else {
                i
            };
            proof {
                let line = v@.subrange(start as int, i as int);
                if i > start && v@[i - 1] == '\r' {
                    assert(strip_cr(line) =~= v@.subrange(start as int, end as int));
                } else {
                    assert(strip_cr(line) =~= v@.subrange(start as int, end as int));
                }
            }
            let ghost old_r = r@;
            let ghost old_done = done;
            proof {
                done = done.push(v@.subrange(start as int, end as int));
                assert(lines_of(v@) =~= done + lines_of(v@.skip(i + 1)));
            }
            r.push((start, end));
            proof {
                assert forall|k: int| 0 <= k < r@.len() implies #[trigger] r@[k].0 <= r@[k].1 <= n
                    && done[k] == v@.subrange(r@[k].0 as int, r@[k].1 as int) by {
                    if k < old_r.len() {
                        assert(r@[k] == old_r[k]);
                        assert(done[k] == old_done[k]);
                    }
                }
            }
            start = i + 1;
        }
        i = i + 1;
    }
    if start < n {
        let ghost rest = v@.skip(start as int);
        proof {
            lemma_find_char(rest, '\n', (n - start) as int);
            assert(rest =~= v@.subrange(start as int, n as int));
        }
        let ghost old_r = r@;
        let ghost old_done = done;
        proof {
            done = done.push(v@.subrange(start as int, n as int));
            assert(lines_of(v@) =~= done);
        }
        r.push((start, n));
        proof {
            assert forall|k: int| 0 <= k < r@.len() implies #[trigger] r@[k].0 <= r@[k].1 <= n
                && done[k] == v@.subrange(r@[k].0 as int, r@[k].1 as int) by {
                if k < old_r.len() {
                    assert(r@[k] == old_r[k]);
                    assert(done[k] == old_done[k]);
                }
            }
        }
    } else {
        proof {
            assert(v@.skip(start as int).len() == 0);
            assert(lines_of(v@) =~= done);
        }
    }
    assert(lines_of(v@) == done);
    r
}


// ---------------------------------------------------------------------------
// Words (as `str::split_whitespace` yields them)
// ---------------------------------------------------------------------------

/// The number of characters at the front of `s` that are not whitespace.
pub open spec fn token_len(s: Seq<char>) -> nat
    decreases s.len(),
{
    if s.len() == 0 || unicode_whitespace(s[0]) {
        0
    } else {
        1 + token_len(s.drop_first())
    }
}

/// The maximal runs of non-whitespace characters of `s`, in order.
pub open spec fn words_of(s: Seq<char>) -> Seq<Seq<char>>
    decreases s.len(),
{
    if s.len() == 0 {
        seq![]
    } else if unicode_whitespace(s[0]) {
        words_of(s.drop_first())
    } else {
        let k = token_len(s);
        proof {
            lemma_token_len_bounds(s);
        }
        seq![s.take(k as int)] + words_of(s.skip(k as int))
    }
}

pub proof fn lemma_token_len_bounds(s: Seq<char>)
    ensures
        token_len(s) <= s.len(),
        s.len() > 0 && !unicode_whitespace(s[0]) ==> token_len(s) >= 1,
    decreases s.len(),
{
    if s.len() > 0 && !unicode_whitespace(s[0]) {
        lemma_token_len_bounds(s.drop_first());
    }
}

pub proof fn lemma_token_len(s: Seq<char>, k: int)
    requires
        0 <= k <= s.len(),
        forall|j: int| 0 <= j < k ==> !unicode_whitespace(#[trigger] s[j]),
        k == s.len() || unicode_whitespace(s[k]),
    ensures
        token_len(s) == k,
    decreases k,
{
    if k > 0 {
        lemma_token_len(s.drop_first(), k - 1);
    }
}

/// Splits `v[from..to]` into its words (see `words_of`); each word is given
/// as the pair of its start and end index in `v`.
pub fn word_ranges(v: &Vec<char>, from: usize, to: usize) -> (r: Vec<(usize, usize)>)
    requires
        from <= to <= v@.len(),
    ensures
        r@.len() == words_of(v@.subrange(from as int, to as int)).len(),
        forall|i: int|
            #![trigger r@[i]]
            0 <= i < r@.len() ==> from <= r@[i].0 <= r@[i].1 <= to && words_of(
                v@.subrange(from as int, to as int),
            )[i] == v@.subrange(r@[i].0 as int, r@[i].1 as int),
{
    let ghost whole = v@.subrange(from as int, to as int);
    let mut r: Vec<(usize, usize)> = Vec::new();
    let mut in_word = false;
    let mut wstart: usize = from;
    let mut i: usize = from;
    let ghost mut done: Seq<Seq<char>> = seq![];
    while i < to
        invariant
            from <= wstart <= i <= to <= v@.len(),
            whole == v@.subrange(from as int, to as int),
            !in_word ==> wstart == i,
            in_word ==> wstart < i,
            forall|j: int| wstart <= j < i ==> !unicode_whitespace(#[trigger] v@[j]),
            words_of(whole) == done + words_of(v@.subrange(wstart as int, to as int)),
            r@.len() == done.len(),
            forall|k: int|
                #![trigger r@[k]]
                0 <= k < r@.len() ==> from <= r@[k].0 <= r@[k].1 <= to && done[k]
                    == v@.subrange(r@[k].0 as int, r@[k].1 as int),
        decreases to - i,
    {
        let ws = char_is_whitespace(v[i]);
        if ws {
            if in_word {
                let ghost rest = v@.subrange(wstart as int, to as int);
                proof {
                    lemma_token_len(rest, (i - wstart) as int);
                    assert(rest.take((i - wstart) as int) =~= v@.subrange(wstart as int, i as int));
                    assert(rest.skip((i - wstart) as int) =~= v@.subrange(i as int, to as int));
                    let tail = v@.subrange(i as int, to as int);
                    assert(tail.drop_first() =~= v@.subrange(i + 1, to as int));
                    assert(tail[0] == v@[i as int]);
                    assert(words_of(tail) == words_of(v@.subrange(i + 1, to as int)));
                    assert(rest[0] == v@[wstart as int]);
                    assert(!unicode_whitespace(rest[0]));
                    assert(words_of(rest) == seq![v@.subrange(wstart as int, i as int)] + words_of(
                        tail,
                    ));
                }
                let ghost old_r = r@;
                let ghost old_done = done;
                proof {
                    done = done.push(v@.subrange(wstart as int, i as int));
                    assert(words_of(whole) =~= done + words_of(v@.subrange(i + 1, to as int)));
                }
                r.push((wstart, i));
                proof {
                    assert forall|k: int| 0 <= k < r@.len() implies #[trigger] r@[k].0 >= from
                        && r@[k].0 <= r@[k].1 <= to && done[k] == v@.subrange(
                        r@[k].0 as int,
                        r@[k].1 as int,
                    ) by {
                        if k < old_r.len() {
                            assert(r@[k] == old_r[k]);
                            assert(done[k] == old_done[k]);
                        }
                    }
                }
                in_word = false;
            } else {
                proof {
                    let tail = v@.subrange(i as int, to as int);
                    assert(tail.drop_first() =~= v@.subrange(i + 1, to as int));
                }
            }
            wstart = i + 1;
        } else {
            if !in_word {
                in_word = true;
                wstart = i;
            }
        }
        i = i + 1;
    }
    if in_word {
        let ghost rest = v@.subrange(wstart as int, to as int);
        proof {
            lemma_token_len(rest, (to - wstart) as int);
            assert(rest.take((to - wstart) as int) =~= rest);
            assert(rest.skip((to - wstart) as int).len() == 0);
            assert(rest[0] == v@[wstart as int]);
            assert(words_of(rest) == seq![rest] + words_of(rest.skip((to - wstart) as int)));
            assert(words_of(rest.skip((to - wstart) as int)) == Seq::<Seq<char>>::empty());
        }
        let ghost old_r = r@;
        let ghost old_done = done;
        proof {
            done = done.push(v@.subrange(wstart as int, to as int));
            assert(words_of(whole) =~= done);
        }
        r.push((wstart, to));
        proof {
            assert forall|k: int| 0 <= k < r@.len() implies #[trigger] r@[k].0 >= from && r@[k].0
                <= r@[k].1 <= to && done[k] == v@.subrange(r@[k].0 as int, r@[k].1 as int) by {
                if k < old_r.len() {
                    assert(r@[k] == old_r[k]);
                    assert(done[k] == old_done[k]);
                }
            }
        }
    } else {
        assert(v@.subrange(wstart as int, to as int).len() == 0);
        assert(words_of(whole) =~= done);
    }
    r
}

// ---------------------------------------------------------------------------
// Trimming (as `str::trim` does it)
// ---------------------------------------------------------------------------

/// `s` without its leading whitespace.
pub open spec fn trim_start(s: Seq<char>) -> Seq<char>
    decreases s.len(),
{
    if s.len() > 0 && unicode_whitespace(s[0]) {
        trim_start(s.drop_first())
    } else {
        s
    }
}

/// `s` without its trailing whitespace.
pub open spec fn trim_end(s: Seq<char>) -> Seq<char>
    decreases s.len(),
{
    if s.len() > 0 && unicode_whitespace(s.last()) {
        trim_end(s.drop_last())
    } else {
        s
    }
}

/// `s` without leading and trailing whitespace.
pub open spec fn trim(s: Seq<char>) -> Seq<char> {
    trim_end(trim_start(s))
}

proof fn lemma_trim_start(v: Seq<char>, from: int, a: int, to: int)
    requires
        0 <= from <= a <= to <= v.len(),
        forall|j: int| from <= j < a ==> unicode_whitespace(#[trigger] v[j]),
        a == to || !unicode_whitespace(v[a]),
    ensures
        trim_start(v.subrange(from, to)) == v.subrange(a, to),
    decreases a - from,
{
    if from < a {
        assert(v.subrange(from, to).drop_first() =~= v.subrange(from + 1, to));
        lemma_trim_start(v, from + 1, a, to);
    } else {
        if a < to {
            assert(v.subrange(from, to)[0] == v[a]);
        }
    }
}

proof fn lemma_trim_end(v: Seq<char>, a: int, b: int, to: int)
    requires
        0 <= a <= b <= to <= v.len(),
        forall|j: int| b <= j < to ==> unicode_whitespace(#[trigger] v[j]),
        b == a || !unicode_whitespace(v[b - 1]),
    ensures
        trim_end(v.subrange(a, to)) == v.subrange(a, b),
    decreases to - b,
{
    if b < to {
        assert(v.subrange(a, to).drop_last() =~= v.subrange(a, to - 1));
        lemma_trim_end(v, a, b, to - 1);
    } else {
        if a < b {
            assert(v.subrange(a, to).last() == v[b - 1]);
        }
    }
}

/// The range of `v[from..to]` that remains once leading and trailing
/// whitespace is trimmed.
pub fn trim_range(v: &Vec<char>, from: usize, to: usize) -> (r: (usize, usize))
    requires
        from <= to <= v@.len(),
    ensures
        from <= r.0 <= r.1 <= to,
        trim(v@.subrange(from as int, to as int)) == v@.subrange(r.0 as int, r.1 as int),
{
    let mut a = from;
    while a < to && char_is_whitespace(v[a])
        invariant
            from <= a <= to <= v@.len(),
            forall|j: int| from <= j < a ==> unicode_whitespace(#[trigger] v@[j]),
        decreases to - a,
    {
        a = a + 1;
    }
    proof {
        if a < to {
            assert(!unicode_whitespace(v@[a as int]));
        }
        lemma_trim_start(v@, from as int, a as int, to as int);
    }
    let mut b = to;
    while b > a && char_is_whitespace(v[b - 1])
        invariant
            a <= b <= to <= v@.len(),
            forall|j: int| b <= j < to ==> unicode_whitespace(#[trigger] v@[j]),
        decreases b - a,
    {
        b = b - 1;
    }
    proof {
        lemma_trim_end(v@, a as int, b as int, to as int);
    }
    (a, b)
}

/// `s` without leading and trailing whitespace, as a new `String` (as
/// `str::trim` gives it).
pub fn trimmed(s: &str) -> (r: String)
    ensures
        r@ == trim(s@),
{
    let v = chars_of(s);
    let (a, b) = trim_range(&v, 0, v.len());
    assert(v@.subrange(0, v@.len() as int) =~= s@);
    string_of_range(&v, a, b)
}

/// Whether `v[from..to]` equals `t`.
pub fn range_eq(v: &Vec<char>, from: usize, to: usize, t: &Vec<char>) -> (r: bool)
    requires
        from <= to <= v@.len(),
    ensures
        r == (v@.subrange(from as int, to as int) == t@),
{
    if to - from != t.len() {
        return false;
    }
    let mut i: usize = 0;
    while i < t.len()
        invariant
            from <= to <= v@.len(),
            to - from == t@.len(),
            i <= t@.len(),
            forall|j: int| 0 <= j < i ==> v@[from + j] == t@[j],
        decreases t@.len() - i,
    {
        if v[from + i] != t[i] {
            assert(v@.subrange(from as int, to as int)[i as int] != t@[i as int]);
            return false;
        }
        i = i + 1;
    }
    assert(v@.subrange(from as int, to as int) =~= t@);
    true
}

/// Whether `v[from..to]` begins with `t`.
pub fn range_starts_with(v: &Vec<char>, from: usize, to: usize, t: &Vec<char>) -> (r: bool)
    requires
        from <= to <= v@.len(),
    ensures
        r == (t@.len() <= to - from && v@.subrange(from as int, from + t@.len()) == t@),
{
    if to - from < t.len() {
        return false;
    }
    range_eq(v, from, from + t.len(), t)
}

// ---------------------------------------------------------------------------
// Strings as values
// ---------------------------------------------------------------------------

/// The character sequences of a list of strings.
pub open spec fn views(v: Seq<String>) -> Seq<Seq<char>> {
    v.map_values(|s: String| s@)
}

/// Whether `v` holds a string equal to `s`.
pub fn contains_string(v: &Vec<String>, s: &String) -> (r: bool)
    ensures
        r == views(v@).contains(s@),
{
    let mut i: usize = 0;
    while i < v.len()
        invariant
            i <= v@.len(),
            forall|j: int| 0 <= j < i ==> v@[j]@ != s@,
        decreases v@.len() - i,
    {
        if v[i] == *s {
            assert(views(v@)[i as int] == s@);
            return true;
        }
        i = i + 1;
    }
    proof {
        if views(v@).contains(s@) {
            let k = choose|k: int| 0 <= k < views(v@).len() && views(v@)[k] == s@;
            assert(v@[k]@ == s@);
        }
    }
    false
}

/// Adds `s` to `v` unless a string equal to it is there already.
pub fn push_unique(v: &mut Vec<String>, s: String)
    ensures
        views(old(v)@).no_duplicates() ==> views(final(v)@).no_duplicates(),
        views(final(v)@).to_set() == views(old(v)@).to_set().insert(s@),
{
    let present = contains_string(v, &s);
    let ghost sv = s@;
    if !present {
        v.push(s);
        proof {
            assert(views(v@) =~= views(old(v)@).push(sv));
            if views(old(v)@).no_duplicates() {
                assert forall|a: int, b: int|
                    0 <= a < b < views(v@).len() implies views(v@)[a] != views(v@)[b] by {
                    if b == views(v@).len() - 1 {
                        assert(views(old(v)@)[a] == views(v@)[a]);
                    }
                }
            }
        }
        proof {
            let nv = views(v@);
            let ov = views(old(v)@);
            assert forall|x: Seq<char>| nv.to_set().contains(x) <==> ov.to_set().insert(sv).contains(x) by {
                if nv.to_set().contains(x) {
                    let k = choose|k: int| 0 <= k < nv.len() && nv[k] == x;
                    if k < ov.len() {
                        assert(ov[k] == x);
                    }
                }
                if ov.to_set().contains(x) {
                    let k = choose|k: int| 0 <= k < ov.len() && ov[k] == x;
                    assert(nv[k] == x);
                }
                if x == sv {
                    assert(nv[nv.len() - 1] == x);
                }
            }
            assert(nv.to_set() =~= ov.to_set().insert(sv));
        }
    } else {
        proof {
            assert(views(v@).to_set().contains(sv));
            assert(views(v@).to_set() =~= views(old(v)@).to_set().insert(sv));
        }
    }
}

/// A new `String` holding the characters of `t`.
pub fn string_from(t: &str) -> (r: String)
    ensures
        r@ == t@,
{
    let mut r = String::new();
    push_seq(&mut r, t);
    assert(r@ =~= t@);
    r
}

/// `s` without its trailing `c` characters (as `str::trim_end_matches` with a
/// character pattern does it).
pub open spec fn trim_end_char(s: Seq<char>, c: char) -> Seq<char>
    decreases s.len(),
{
    if s.len() > 0 && s.last() == c {
        trim_end_char(s.drop_last(), c)
    } else {
        s
    }
}

/// The length of `s` once its trailing `c` characters are removed.
pub fn trim_end_char_len(v: &Vec<char>, c: char) -> (r: usize)
    ensures
        r <= v@.len(),
        trim_end_char(v@, c) == v@.take(r as int),
{
    let mut b = v.len();
    assert(v@.take(b as int) =~= v@);
    while b > 0 && v[b - 1] == c
        invariant
            b <= v@.len(),
            trim_end_char(v@, c) == trim_end_char(v@.take(b as int), c),
        decreases b,
    {
        proof {
            assert(v@.take(b as int).drop_last() =~= v@.take(b - 1));
            assert(v@.take(b as int).last() == v@[b - 1]);
        }
        b = b - 1;
    }
    proof {
        if b > 0 {
            assert(v@.take(b as int).last() == v@[b - 1]);
        }
    }
    b
}

// ---------------------------------------------------------------------------
// Numbers
// ---------------------------------------------------------------------------

/// The decimal digit character for `d`.
pub open spec fn digit_char(d: nat) -> char {
    ((d + 48) as u32) as char
}

/// The decimal notation of `n`, as `Display` writes it for unsigned integers.
pub open spec fn decimal(n: nat) -> Seq<char>
    decreases n,
{
    if n < 10 {
        seq![digit_char(n)]
    } else {
        decimal(n / 10) + seq![digit_char(n % 10)]
    }
}

/// The decimal digit character for `d`, below 10.
fn digit(d: u64) -> (c: char)
    requires
        d < 10,
    ensures
        c == digit_char(d as nat),
{
    if d == 0 { '0' } else if d == 1 { '1' } else if d == 2 { '2' } else if d == 3 { '3' } else if d
        == 4 { '4' } else if d == 5 { '5' } else if d == 6 { '6' } else if d == 7 { '7' } else if d
        == 8 { '8' } else { '9' }
}

/// Appends the decimal notation of `n` to `s`.
pub fn push_decimal(s: &mut String, n: u64)
    ensures
        final(s)@ == old(s)@ + decimal(n as nat),
    decreases n,
{
    if n < 10 {
        push_char(s, digit(n));
        assert(old(s)@.push(digit_char(n as nat)) =~= old(s)@ + decimal(n as nat));
    } else {
        push_decimal(s, n / 10);
        push_char(s, digit(n % 10));
        assert(s@ =~= old(s)@ + decimal(n as nat));
    }
}

/// Whether every character of `s` is an ASCII digit.
pub open spec fn all_digits(s: Seq<char>) -> bool {
    forall|i: int| 0 <= i < s.len() ==> '0' <= #[trigger] s[i] && s[i] <= '9'
}

/// The value of the decimal digits `s`.
pub open spec fn digits_value(s: Seq<char>) -> nat
    decreases s.len(),
{
    if s.len() == 0 {
        0
    } else {
        (digits_value(s.drop_last()) * 10 + (s.last() as nat - '0' as nat)) as nat
    }
}

/// What `str::parse::<u64>` gives: an optional `+` followed by at least one
/// ASCII digit, whose value fits in a `u64`; nothing else is accepted.
pub open spec fn parse_u64_spec(s: Seq<char>) -> Option<u64> {
    let d = if s.len() > 0 && s[0] == '+' {
        s.drop_first()
    } else {
        s
    };
    if d.len() > 0 && all_digits(d) && digits_value(d) <= u64::MAX {
        Some(digits_value(d) as u64)
    } else {
        None
    }
}

/// What `str::parse::<u32>` gives (see `parse_u64_spec`).
pub open spec fn parse_u32_spec(s: Seq<char>) -> Option<u32> {
    match parse_u64_spec(s) {
        Some(n) => if n <= u32::MAX {
            Some(n as u32)
        } else {
            None
        },
        None => None,
    }
}

proof fn lemma_digits_value_grows(s: Seq<char>, i: int)
    requires
        0 <= i <= s.len(),
        all_digits(s),
    ensures
        digits_value(s.take(i)) <= digits_value(s),
    decreases s.len() - i,
{
    if i < s.len() {
        lemma_digits_value_grows(s, i + 1);
        assert(s.take(i + 1).drop_last() =~= s.take(i));
    } else {
        assert(s.take(i) =~= s);
    }
}

proof fn lemma_decimal_digits(n: nat)
    ensures
        decimal(n).len() > 0,
        all_digits(decimal(n)),
        digits_value(decimal(n)) == n,
    decreases n,
{
    let c = digit_char(n % 10);
    assert(c as nat == n % 10 + 48);
    if n >= 10 {
        lemma_decimal_digits(n / 10);
        let s = decimal(n);
        assert(s.drop_last() =~= decimal(n / 10));
        assert(s.last() == c);
        assert(digits_value(s) == digits_value(s.drop_last()) * 10 + (c as nat - '0' as nat));
        assert((n / 10) * 10 + n % 10 == n);
        assert forall|i: int| 0 <= i < s.len() implies '0' <= #[trigger] s[i] && s[i] <= '9' by {
            if i < s.len() - 1 {
                assert(s[i] == decimal(n / 10)[i]);
            }
        }
    } else {
        let s = decimal(n);
        assert(s.drop_last() =~= Seq::<char>::empty());
        assert(digits_value(s) == digits_value(s.drop_last()) * 10 + (c as nat - '0' as nat));
    }
}

/// Reading back what `push_decimal` writes gives the number written:
/// `str::parse::<u64>` of the decimal notation of `n` is `n`.
pub proof fn lemma_parse_decimal_round_trip(n: u64)
    ensures
        parse_u64_spec(decimal(n as nat)) == Some(n),
{
    lemma_decimal_digits(n as nat);
    let s = decimal(n as nat);
    assert('0' <= s[0] && s[0] <= '9');
}

/// Reads a `u64` as `str::parse::<u64>` does.
pub fn parse_u64(s: &str) -> (r: Option<u64>)
    ensures
        r == parse_u64_spec(s@),
{
    let v = chars_of(s);
    let n = v.len();
    let start: usize = if n > 0 && v[0] == '+' {
        1
    } else {
        0
    };
    let ghost d = if s@.len() > 0 && s@[0] == '+' {
        s@.drop_first()
    } else {
        s@
    };
    assert(v@.skip(start as int) =~= d);
    if start == n {
        return None;
    }
    let mut value: u64 = 0;
    let mut i = start;
    while i < n
        invariant
            v@ == s@,
            n == v@.len(),
            start <= i <= n,
            d == v@.skip(start as int),
            d == (if s@.len() > 0 && s@[0] == '+' {
                s@.drop_first()
            } else {
                s@
            }),
            all_digits(d.take(i - start)),
            value == digits_value(d.take(i - start)),
        decreases n - i,
    {
        let c = v[i];
        let ghost k = i - start;
        assert(d.take(k + 1).drop_last() =~= d.take(k));
        assert(d[k] == c);
        if !('0' <= c && c <= '9') {
            assert(!all_digits(d));
            return None;
        }
        let digit = (c as u32 - '0' as u32) as u64;
        if value > (u64::MAX - digit) / 10 {
            proof {
                assert(all_digits(d.take(k + 1))) by {
                    assert forall|j: int| 0 <= j < k + 1 implies '0' <= #[trigger] d.take(k + 1)[j]
                        && d.take(k + 1)[j] <= '9' by {
                        if j < k {
                            assert(d.take(k + 1)[j] == d.take(k)[j]);
                        }
                    }
                }
                assert(digits_value(d.take(k + 1)) == value * 10 + digit);
                assert(value * 10 + digit > u64::MAX) by (nonlinear_arith)
                    requires
                        value > (u64::MAX - digit) / 10,
                        digit <= 9,
                ;
                if all_digits(d) {
                    lemma_digits_value_grows(d, k + 1);
                }
            }
            return None;
        }
        proof {
            assert(value * 10 + digit <= u64::MAX) by (nonlinear_arith)
                requires
                    value <= (u64::MAX - digit) / 10,
                    digit <= 9,
            ;
        }
        value = value * 10 + digit;
        i = i + 1;
        proof {
            assert forall|j: int| 0 <= j < k + 1 implies '0' <= #[trigger] d.take(k + 1)[j] && d.take(k
                + 1)[j] <= '9' by {
                if j < k {
                    assert(d.take(k + 1)[j] == d.take(k)[j]);
                }
            }
        }
    }
    assert(d.take(n - start) =~= d);
    Some(value)
}

/// Reads a `u32` as `str::parse::<u32>` does.
pub fn parse_u32(s: &str) -> (r: Option<u32>)
    ensures
        r == parse_u32_spec(s@),
{
    match parse_u64(s) {
        Some(n) => if n <= 0xffff_ffffu64 {
            Some(n as u32)
        } else {
            None
        },
        None => None,
    }
}

/// Whether `t` occurs in `s` (at some position, as a run of characters).
pub open spec fn has_infix(s: Seq<char>, t: Seq<char>) -> bool {
    exists|i: int| 0 <= i && i + t.len() <= s.len() && #[trigger] s.subrange(i, i + t.len()) == t
}

/// Whether `t` occurs in `s` (as `str::contains` with a string pattern).
pub fn contains_text(s: &str, t: &str) -> (r: bool)
    ensures
        r == has_infix(s@, t@),
{
    let v = chars_of(s);
    let w = chars_of(t);
    if w.len() > v.len() {
        return false;
    }
    let mut i: usize = 0;
    let last = v.len() - w.len();
    loop
        invariant
            v@ == s@,
            w@ == t@,
            w@.len() <= v@.len(),
            last == v@.len() - w@.len(),
            i <= last,
            forall|j: int| 0 <= j < i ==> #[trigger] s@.subrange(j, j + t@.len()) != t@,
        decreases last - i,
    {
        let end = i + (v.len() - last);
        if range_eq(&v, i, end, &w) {
            return true;
        }
        if i == last {
            return false;
        }
        i = i + 1;
    }
}

/// Whether `a` and `b` hold the same characters.
pub fn same_text(a: &str, b: &str) -> (r: bool)
    ensures
        r == (a@ == b@),
{
    let v = chars_of(a);
    let w = chars_of(b);
    if v.len() != w.len() {
        return false;
    }
    let eq = range_eq(&v, 0, v.len(), &w);
    assert(v@.subrange(0, v@.len() as int) =~= v@);
    eq
}

/// Whether `s` begins with `t` (as `str::starts_with` with a string
/// pattern).
pub fn starts_with_text(s: &str, t: &str) -> (r: bool)
    ensures
        r == (t@.len() <= s@.len() && s@.take(t@.len() as int) == t@),
{
    let v = chars_of(s);
    let w = chars_of(t);
    let r = range_starts_with(&v, 0, v.len(), &w);
    proof {
        if t@.len() <= s@.len() {
            assert(v@.subrange(0, w@.len() as int) =~= s@.take(t@.len() as int));
        }
    }
    r
}

} // verus!
