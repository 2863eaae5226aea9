//! Strings as sequences of `char`: lines, prefixes and trimming, the small
//! vocabulary in which the probes read marker files.

use vstd::prelude::*;

verus! {

/// Whether `c` has the Unicode property White_Space.
pub open spec fn is_whitespace(c: char) -> bool {
    let n = c as u32;
    ||| 0x09 <= n <= 0x0d
    ||| n == 0x20
    ||| n == 0x85
    ||| n == 0xa0
    ||| n == 0x1680
    ||| 0x2000 <= n <= 0x200a
    ||| n == 0x2028
    ||| n == 0x2029
    ||| n == 0x202f
    ||| n == 0x205f
    ||| n == 0x3000
}

/// A set of characters that can be trimmed from the ends of a string.
#[derive(Clone, Copy, Debug)]
pub enum CharClass {
    /// Every character with the property White_Space.
    Whitespace,
    /// One character.
    Exactly(char),
}

impl CharClass {
    /// Whether `c` belongs to the class.
    pub open spec fn has(self, c: char) -> bool {
        match self {
            CharClass::Whitespace => is_whitespace(c),
            CharClass::Exactly(q) => c == q,
        }
    }

    /// Tells whether `c` belongs to the class.
    pub fn contains(&self, c: char) -> (b: bool)
        ensures
            b == self.has(c),
    {
        match self {
            CharClass::Whitespace => {
                let n: u32 = c as u32;
                (0x09 <= n && n <= 0x0d) || n == 0x20 || n == 0x85 || n == 0xa0 || n == 0x1680 || (
                0x2000 <= n && n <= 0x200a) || n == 0x2028 || n == 0x2029 || n == 0x202f || n
                    == 0x205f || n == 0x3000
            },
            CharClass::Exactly(q) => c == *q,
        }
    }
}

/// `s` without its longest prefix of characters of `class`.
pub open spec fn trim_start(s: Seq<char>, class: CharClass) -> Seq<char>
    decreases s.len(),
{
    if s.len() > 0 && class.has(s[0]) {
        trim_start(s.drop_first(), class)
    } else {
        s
    }
}

/// `s` without its longest suffix of characters of `class`.
pub open spec fn trim_end(s: Seq<char>, class: CharClass) -> Seq<char>
    decreases s.len(),
{
    if s.len() > 0 && class.has(s.last()) {
        trim_end(s.drop_last(), class)
    } else {
        s
    }
}

/// `s` with the characters of `class` removed from both ends.
pub open spec fn trim_matching(s: Seq<char>, class: CharClass) -> Seq<char> {
    trim_end(trim_start(s, class), class)
}

/// `s` with white space removed from both ends.
pub open spec fn trim(s: Seq<char>) -> Seq<char> {
    trim_matching(s, CharClass::Whitespace)
}

/// What follows the last occurrence of `c` in `s`; all of `s` if `c` does not
/// occur in it.
pub open spec fn after_last(s: Seq<char>, c: char) -> Seq<char>
    decreases s.len(),
{
    if s.len() == 0 {
        s
    } else if s.last() == c {
        Seq::empty()
    } else {
        after_last(s.drop_last(), c).push(s.last())
    }
}

/// The index of the first line feed in `s`, or the length of `s` if it holds
/// none.
pub open spec fn line_feed(s: Seq<char>) -> int
    decreases s.len(),
{
    if s.len() == 0 || s[0] == '\n' {
        0
    } else {
        1 + line_feed(s.drop_first())
    }
}

/// A line without the carriage return that stood before its line feed.
pub open spec fn strip_cr(line: Seq<char>) -> Seq<char> {
    if line.len() > 0 && line.last() == '\r' {
        line.drop_last()
    } else {
        line
    }
}

/// The lines of `s`. A line ends at a line feed, or at a carriage return
/// directly followed by one; neither belongs to the line. The last line need
/// not be terminated, and a terminated last line is followed by no empty one.
pub open spec fn lines(s: Seq<char>) -> Seq<Seq<char>>
    decreases s.len(),
{
    if s.len() == 0 {
        Seq::empty()
    } else {
        let k = line_feed(s);
        if 0 <= k < s.len() {
            seq![strip_cr(s.take(k))] + lines(s.skip(k + 1))
        } else {
            seq![s]
        }
    }
}

/// What follows `prefix` in the first of `ls` that starts with it.
pub open spec fn first_after_prefix(ls: Seq<Seq<char>>, prefix: Seq<char>) -> Option<Seq<char>>
    decreases ls.len(),
{
    if ls.len() == 0 {
        None
    } else if prefix.is_prefix_of(ls[0]) {
        Some(ls[0].skip(prefix.len() as int))
    } else {
        first_after_prefix(ls.drop_first(), prefix)
    }
}

/// What [`trim_start`] leaves: a suffix of `s` that starts with no character
/// of the class, behind characters of the class only.
pub proof fn lemma_trim_start(s: Seq<char>, class: CharClass)
    ensures
        trim_start(s, class).len() <= s.len(),
        trim_start(s, class) == s.skip(s.len() - trim_start(s, class).len()),
        forall|k: int| 0 <= k < s.len() - trim_start(s, class).len() ==> class.has(#[trigger] s[k]),
        trim_start(s, class).len() > 0 ==> !class.has(trim_start(s, class)[0]),
    decreases s.len(),
{
    if s.len() > 0 && class.has(s[0]) {
        let rest = s.drop_first();
        lemma_trim_start(rest, class);
        let cut = rest.len() - trim_start(rest, class).len();
        assert forall|k: int| 0 <= k < cut + 1 implies class.has(#[trigger] s[k]) by {
            if k > 0 {
                assert(s[k] == rest[k - 1]);
            }
        }
    }
}

/// What [`trim_end`] leaves: a prefix of `s` that ends with no character of
/// the class, before characters of the class only.
pub proof fn lemma_trim_end(s: Seq<char>, class: CharClass)
    ensures
        trim_end(s, class).len() <= s.len(),
        trim_end(s, class) == s.take(trim_end(s, class).len() as int),
        forall|k: int| trim_end(s, class).len() <= k < s.len() ==> class.has(#[trigger] s[k]),
        trim_end(s, class).len() > 0 ==> !class.has(trim_end(s, class).last()),
    decreases s.len(),
{
    if s.len() > 0 && class.has(s.last()) {
        let rest = s.drop_last();
        lemma_trim_end(rest, class);
        let kept = trim_end(rest, class).len() as int;
        assert forall|k: int| kept <= k < s.len() implies class.has(#[trigger] s[k]) by {
            if k < s.len() - 1 {
                assert(s[k] == rest[k]);
            }
        }
    }
}

/// What [`after_last`] leaves: the suffix of `s` that holds no `c` and
/// stands behind a `c`, or all of `s` where it holds none.
pub proof fn lemma_after_last(s: Seq<char>, c: char)
    ensures
        after_last(s, c).len() <= s.len(),
        after_last(s, c) == s.skip(s.len() - after_last(s, c).len()),
        forall|k: int| 0 <= k < after_last(s, c).len() ==> #[trigger] after_last(s, c)[k] != c,
        after_last(s, c).len() < s.len() ==> s[s.len() - after_last(s, c).len() - 1] == c,
    decreases s.len(),
{
    if s.len() > 0 && s.last() != c {
        lemma_after_last(s.drop_last(), c);
    }
}

/// What [`line_feed`] finds: the first line feed of `s`, or its end.
pub proof fn lemma_line_feed_found(s: Seq<char>)
    ensures
        0 <= line_feed(s) <= s.len(),
        forall|k: int| 0 <= k < line_feed(s) ==> #[trigger] s[k] != '\n',
        line_feed(s) == s.len() || s[line_feed(s)] == '\n',
    decreases s.len(),
{
    if s.len() > 0 && s[0] != '\n' {
        let rest = s.drop_first();
        lemma_line_feed_found(rest);
        assert forall|k: int| 0 <= k < line_feed(s) implies #[trigger] s[k] != '\n' by {
            if k > 0 {
                assert(s[k] == rest[k - 1]);
            }
        }
    }
}

/// No line holds a line feed.
pub proof fn lemma_lines_hold_no_line_feed(s: Seq<char>)
    ensures
        forall|i: int, k: int|
            0 <= i < lines(s).len() && 0 <= k < lines(s)[i].len() ==> #[trigger] lines(s)[i][k]
                != '\n',
    decreases s.len(),
{
    if s.len() > 0 {
        lemma_line_feed_found(s);
        let k = line_feed(s);
        if k < s.len() {
            let rest = s.skip(k + 1);
            lemma_lines_hold_no_line_feed(rest);
            assert forall|i: int, j: int|
                0 <= i < lines(s).len() && 0 <= j < lines(s)[i].len() implies #[trigger] lines(
                s,
            )[i][j] != '\n' by {
                if i > 0 {
                    assert(lines(s)[i] == lines(rest)[i - 1]);
                }
            }
        }
    }
}

/// Text without a line feed is one line, unless it is empty.
pub proof fn lemma_one_line(s: Seq<char>)
    requires
        s.len() > 0,
        forall|k: int| 0 <= k < s.len() ==> #[trigger] s[k] != '\n',
    ensures
        lines(s) == seq![s],
{
    lemma_line_feed(s, s.len() as int);
}

/// What [`first_after_prefix`] finds: the first line that starts with the
/// prefix, or none where no line does.
pub proof fn lemma_first_after_prefix(ls: Seq<Seq<char>>, prefix: Seq<char>)
    ensures
        match first_after_prefix(ls, prefix) {
            Some(value) => exists|i: int|
                {
                    &&& 0 <= i < ls.len()
                    &&& prefix.is_prefix_of(#[trigger] ls[i])
                    &&& value == ls[i].skip(prefix.len() as int)
                    &&& forall|j: int| 0 <= j < i ==> !prefix.is_prefix_of(#[trigger] ls[j])
                },
            None => forall|i: int| 0 <= i < ls.len() ==> !prefix.is_prefix_of(#[trigger] ls[i]),
        },
    decreases ls.len(),
{
    if ls.len() > 0 && !prefix.is_prefix_of(ls[0]) {
        let rest = ls.drop_first();
        lemma_first_after_prefix(rest, prefix);
        match first_after_prefix(rest, prefix) {
            Some(value) => {
                let i = choose|i: int|
                    {
                        &&& 0 <= i < rest.len()
                        &&& prefix.is_prefix_of(#[trigger] rest[i])
                        &&& value == rest[i].skip(prefix.len() as int)
                        &&& forall|j: int| 0 <= j < i ==> !prefix.is_prefix_of(#[trigger] rest[j])
                    };
                assert forall|j: int| 0 <= j < i + 1 implies !prefix.is_prefix_of(
                    #[trigger] ls[j],
                ) by {
                    if j > 0 {
                        assert(ls[j] == rest[j - 1]);
                    }
                }
            },
            None => {
                assert forall|i: int| 0 <= i < ls.len() implies !prefix.is_prefix_of(
                    #[trigger] ls[i],
                ) by {
                    if i > 0 {
                        assert(ls[i] == rest[i - 1]);
                    }
                }
            },
        }
    }
}

/// Where the first line feed stands: after `n` characters that are none.
pub proof fn lemma_line_feed(s: Seq<char>, n: int)
    requires
        0 <= n <= s.len(),
        forall|k: int| 0 <= k < n ==> s[k] != '\n',
        n == s.len() || s[n] == '\n',
    ensures
        line_feed(s) == n,
    decreases n,
{
    if n > 0 {
        lemma_line_feed(s.drop_first(), n - 1);
    }
}

/// The characters of a string, in order, for constant-time indexing.
pub fn chars_of(s: &str) -> (v: Vec<char>)
    ensures
        v@ == s@,
{
    let mut v: Vec<char> = Vec::new();
    for c in it: s.chars()
        invariant
            it.seq() == s@,
            v@ == it.seq().take(it.index()),
    {
        v.push(c);
    }
    v
}

/// The characters of `s` from `from` up to `to`, as a string of their own.
pub fn slice_string(s: &str, from: usize, to: usize) -> (r: String)
    requires
        from <= to <= s@.len(),
    ensures
        r@ == s@.subrange(from as int, to as int),
{
    s.substring_char(from, to).to_owned()
}

/// Whether two strings hold the same characters.
pub fn same_text(a: &str, b: &str) -> (r: bool)
    ensures
        r == (a@ == b@),
{
    let x = a.to_owned();
    let y = b.to_owned();
    x == y
}

/// Narrows the range `from..to` of `chars` until neither end holds a
/// character of `class`.
pub fn trim_range(chars: &Vec<char>, from: usize, to: usize, class: CharClass) -> (r: (
    usize,
    usize,
))
    requires
        from <= to <= chars.len(),
    ensures
        from <= r.0 <= r.1 <= to,
        chars@.subrange(r.0 as int, r.1 as int) == trim_matching(
            chars@.subrange(from as int, to as int),
            class,
        ),
{
    let mut a: usize = from;
    while a < to && class.contains(chars[a])
        invariant
            from <= a <= to <= chars.len(),
            trim_start(chars@.subrange(from as int, to as int), class) == trim_start(
                chars@.subrange(a as int, to as int),
                class,
            ),
        decreases to - a,
    {
        proof {
            assert(chars@.subrange(a as int, to as int).drop_first() =~= chars@.subrange(
                a + 1,
                to as int,
            ));
        }
        a += 1;
    }
    let mut b: usize = to;
    while b > a && class.contains(chars[b - 1])
        invariant
            a <= b <= to <= chars.len(),
            trim_end(chars@.subrange(a as int, to as int), class) == trim_end(
                chars@.subrange(a as int, b as int),
                class,
            ),
        decreases b - a,
    {
        proof {
            assert(chars@.subrange(a as int, b as int).drop_last() =~= chars@.subrange(
                a as int,
                b - 1,
            ));
        }
        b -= 1;
    }
    (a, b)
}

/// Moves the start of the range `from..to` of `chars` behind the last `c` in
/// it.
pub fn after_last_in(chars: &Vec<char>, from: usize, to: usize, c: char) -> (k: usize)
    requires
        from <= to <= chars.len(),
    ensures
        from <= k <= to,
        chars@.subrange(k as int, to as int) == after_last(
            chars@.subrange(from as int, to as int),
            c,
        ),
{
    let mut k: usize = to;
    while k > from && chars[k - 1] != c
        invariant
            from <= k <= to <= chars.len(),
            after_last(chars@.subrange(from as int, to as int), c) == after_last(
                chars@.subrange(from as int, k as int),
                c,
            ) + chars@.subrange(k as int, to as int),
        decreases k - from,
    {
        proof {
            assert(chars@.subrange(from as int, k as int).drop_last() =~= chars@.subrange(
                from as int,
                k - 1,
            ));
        }
        k -= 1;
    }
    k
}

/// Whether the range `from..to` of `chars` starts with `prefix`.
pub fn starts_with_in(chars: &Vec<char>, from: usize, to: usize, prefix: &Vec<char>) -> (r: bool)
    requires
        from <= to <= chars.len(),
    ensures
        r == prefix@.is_prefix_of(chars@.subrange(from as int, to as int)),
{
    if prefix.len() > to - from {
        return false;
    }
    let mut i: usize = 0;
    while i < prefix.len()
        invariant
            from <= to <= chars.len(),
            i <= prefix.len() <= to - from,
            forall|k: int| 0 <= k < i ==> prefix@[k] == chars@[from + k],
        decreases prefix.len() - i,
    {
        if prefix[i] != chars[from + i] {
            return false;
        }
        i += 1;
    }
    true
}

/// Finds the first line of `chars` that starts with `prefix`, and returns the
/// range of what follows the prefix in it.
pub fn find_after_prefix(chars: &Vec<char>, prefix: &Vec<char>) -> (r: Option<(usize, usize)>)
    ensures
        match r {
            Some((a, b)) => a <= b <= chars.len() && first_after_prefix(lines(chars@), prefix@)
                == Some(chars@.subrange(a as int, b as int)),
            None => first_after_prefix(lines(chars@), prefix@) is None,
        },
{
    let n = chars.len();
    let mut pos: usize = 0;
    proof {
        assert(chars@.skip(0) =~= chars@);
    }
    while pos < n
        invariant
            n == chars.len(),
            pos <= n,
            first_after_prefix(lines(chars@), prefix@) == first_after_prefix(
                lines(chars@.skip(pos as int)),
                prefix@,
            ),
        decreases n - pos,
    {
        let mut end: usize = pos;
        while end < n && chars[end] != '\n'
            invariant
                n == chars.len(),
                pos <= end <= n,
                forall|k: int| pos <= k < end ==> chars@[k] != '\n',
            decreases n - end,
        {
            end += 1;
        }
        let terminated = end < n;
        let stop: usize = if terminated && end > pos && chars[end - 1] == '\r' {
            end - 1
        } else {
            end
        };
        let next: usize = if terminated {
            end + 1
        } else {
            end
        };
        proof {
            let rest = chars@.skip(pos as int);
            lemma_line_feed(rest, end - pos);
            if terminated {
                assert(rest.skip(end - pos + 1) =~= chars@.skip(next as int));
            }
            assert(lines(rest).drop_first() =~= lines(chars@.skip(next as int)));
        }
        if starts_with_in(chars, pos, stop, prefix) {
            return Some((pos + prefix.len(), stop));
        }
        pos = next;
    }
    None
}

} // verus!
