use vstd::prelude::*;
use vstd::string::StrSliceExecFns;

verus! {

/// A text names no variant of the enum it was read for.
#[derive(Clone, Copy, Debug, PartialEq, Eq, Structural)]
pub struct VariantNotFound;

/// `String::push` appends one character.
pub assume_specification[ String::push ](s: &mut String, c: char)
    ensures
        final(s)@ == old(s)@.push(c),
;

/// The characters of `s`, in order.
pub fn to_chars(s: &str) -> (r: Vec<char>)
    ensures
        r@ == s@,
{
    let mut r: Vec<char> = Vec::new();
    for c in it: s.chars()
        invariant
            it.seq() == s@,
            r@ == it.seq().take(it.index() as int),
    {
        r.push(c);
    }
    r
}

/// How often `c` occurs in `s`.
pub open spec fn count_of(s: Seq<char>, c: char) -> nat
    decreases s.len(),
{
    if s.len() == 0 {
        0
    } else {
        count_of(s.drop_first(), c) + if s[0] == c {
            1nat
        } else {
            0nat
        }
    }
}

/// Where `c` occurs in `s` for the time after `n` earlier ones, if it occurs that often.
pub open spec fn nth_index(s: Seq<char>, c: char, n: nat) -> Option<int>
    decreases s.len(),
{
    if s.len() == 0 {
        None
    } else if s[0] == c && n == 0 {
        Some(0)
    } else {
        match nth_index(
            s.drop_first(),
            c,
            if s[0] == c {
                (n - 1) as nat
            } else {
                n
            },
        ) {
            Some(i) => Some(i + 1),
            None => None,
        }
    }
}

/// Where `c` occurs in `s` for the first time.
pub open spec fn first_index(s: Seq<char>, c: char) -> Option<int> {
    nth_index(s, c, 0)
}

/// Where `c` occurs in `s` for the last time.
pub open spec fn last_index(s: Seq<char>, c: char) -> Option<int>
    decreases s.len(),
{
    if s.len() == 0 {
        None
    } else if s.last() == c {
        Some(s.len() - 1)
    } else {
        last_index(s.drop_last(), c)
    }
}

/// The two sides of `s` around the place `i`, which is left out.
pub open spec fn split_around(s: Seq<char>, i: int) -> (Seq<char>, Seq<char>) {
    (s.take(i), s.skip(i + 1))
}

/// An index that `nth_index` gives is in range and holds `c`.
pub proof fn lemma_nth_index_range(s: Seq<char>, c: char, n: nat)
    ensures
        nth_index(s, c, n) matches Some(i) ==> 0 <= i < s.len() && s[i] == c && count_of(
            s.take(i),
            c,
        ) == n,
        nth_index(s, c, n) is None <==> count_of(s, c) <= n,
    decreases s.len(),
{
    if s.len() == 0 {
    } else if s[0] == c && n == 0 {
        assert(s.take(0) == Seq::<char>::empty());
    } else {
        let m = if s[0] == c {
            (n - 1) as nat
        } else {
            n
        };
        lemma_nth_index_range(s.drop_first(), c, m);
        if let Some(i) = nth_index(s.drop_first(), c, m) {
            assert(s.take(i + 1).drop_first() == s.drop_first().take(i));
            assert(s.take(i + 1)[0] == s[0]);
        }
    }
}

/// An index that `last_index` gives is in range and holds the last `c`.
pub proof fn lemma_last_index_range(s: Seq<char>, c: char)
    ensures
        last_index(s, c) matches Some(i) ==> 0 <= i < s.len() && s[i] == c && !s.skip(
            i + 1,
        ).contains(c),
        last_index(s, c) is None <==> !s.contains(c),
    decreases s.len(),
{
    if s.len() == 0 {
    } else if s.last() == c {
        assert(s.skip(s.len() as int) == Seq::<char>::empty());
        assert(s[s.len() - 1] == c);
    } else {
        let init = s.drop_last();
        lemma_last_index_range(init, c);
        if let Some(i) = last_index(init, c) {
            let tail = s.skip(i + 1);
            assert forall|j: int| 0 <= j < tail.len() implies #[trigger] tail[j] != c by {
                if j < init.skip(i + 1).len() {
                    assert(init.skip(i + 1)[j] == tail[j]);
                }
            }
        } else {
            assert forall|j: int| 0 <= j < s.len() implies s[j] != c by {
                if j < init.len() {
                    assert(init[j] == s[j]);
                }
            }
        }
        if init.contains(c) {
            let j = choose|j: int| 0 <= j < init.len() && init[j] == c;
            assert(s[j] == c);
        }
    }
}

/// Occurrences add up over the two parts of a text.
pub proof fn lemma_count_concat(a: Seq<char>, b: Seq<char>, c: char)
    ensures
        count_of(a + b, c) == count_of(a, c) + count_of(b, c),
    decreases a.len(),
{
    if a.len() == 0 {
        assert(a + b == b);
    } else {
        assert((a + b).drop_first() == a.drop_first() + b);
        lemma_count_concat(a.drop_first(), b, c);
    }
}

/// A text without `c` counts no occurrence of it, and the other way round.
pub proof fn lemma_count_zero(s: Seq<char>, c: char)
    ensures
        count_of(s, c) == 0 <==> !s.contains(c),
    decreases s.len(),
{
    if s.len() > 0 {
        lemma_count_zero(s.drop_first(), c);
        if s.drop_first().contains(c) {
            let j = choose|j: int| 0 <= j < s.drop_first().len() && s.drop_first()[j] == c;
            assert(s[j + 1] == c);
        }
        if s.contains(c) && s[0] != c {
            let j = choose|j: int| 0 <= j < s.len() && s[j] == c;
            assert(s.drop_first()[j - 1] == c);
        }
    }
}

/// Behind a part with `k` occurrences, the search goes on for the rest of them.
pub proof fn lemma_nth_index_skip(a: Seq<char>, b: Seq<char>, c: char, n: nat)
    requires
        count_of(a, c) <= n,
    ensures
        nth_index(a + b, c, n) == match nth_index(b, c, (n - count_of(a, c)) as nat) {
            Some(i) => Some(i + a.len()),
            None => None,
        },
    decreases a.len(),
{
    if a.len() == 0 {
        assert(a + b == b);
    } else {
        assert((a + b).drop_first() == a.drop_first() + b);
        assert((a + b)[0] == a[0]);
        let m = if a[0] == c {
            (n - 1) as nat
        } else {
            n
        };
        lemma_nth_index_skip(a.drop_first(), b, c, m);
    }
}

/// In `a`, then `c`, then `b`, where `a` holds `c` exactly `n` times, the place
/// after `n` earlier ones is the one between the two, and the sides are `a` and `b`.
pub proof fn lemma_nth_index_joined(a: Seq<char>, b: Seq<char>, c: char, n: nat)
    requires
        count_of(a, c) == n,
    ensures
        nth_index(a + seq![c] + b, c, n) == Some(a.len() as int),
        split_around(a + seq![c] + b, a.len() as int) == (a, b),
{
    let rest = seq![c] + b;
    assert(a + seq![c] + b == a + rest);
    lemma_nth_index_skip(a, rest, c, n);
    assert(rest[0] == c);
    assert(nth_index(rest, c, 0) == Some(0int));
    assert((a + rest).take(a.len() as int) == a);
    assert((a + rest).skip(a.len() as int + 1) == b);
}

/// In `a`, then `c`, then `b`, where `b` holds no `c`, the last place of `c` is
/// the one between the two.
pub proof fn lemma_last_index_joined(a: Seq<char>, b: Seq<char>, c: char)
    requires
        !b.contains(c),
    ensures
        last_index(a + seq![c] + b, c) == Some(a.len() as int),
        split_around(a + seq![c] + b, a.len() as int) == (a, b),
    decreases b.len(),
{
    let s = a + seq![c] + b;
    if b.len() == 0 {
        assert(s.last() == c);
    } else {
        assert(b.last() == b[b.len() - 1]);
        assert(s.last() == b.last());
        assert(s.drop_last() == a + seq![c] + b.drop_last());
        assert forall|j: int| 0 <= j < b.drop_last().len() implies b.drop_last()[j] != c by {
            assert(b[j] == b.drop_last()[j]);
        }
        lemma_last_index_joined(a, b.drop_last(), c);
    }
    assert(s.take(a.len() as int) == a);
    assert(s.skip(a.len() as int + 1) == b);
}

/// Finds where `c` occurs in `chars` for the time after `n` earlier ones.
pub fn find_nth(chars: &Vec<char>, c: char, n: usize) -> (r: Option<usize>)
    ensures
        match r {
            Some(i) => nth_index(chars@, c, n as nat) == Some(i as int),
            None => nth_index(chars@, c, n as nat) is None,
        },
{
    let mut seen: usize = 0;
    let mut i: usize = 0;
    assert(chars@.take(0) == Seq::<char>::empty());
    while i < chars.len()
        invariant
            i <= chars.len(),
            seen <= n,
            seen == count_of(chars@.take(i as int), c),
        decreases chars.len() - i,
    {
        proof {
            let a = chars@.take(i as int);
            let b = chars@.skip(i as int);
            assert(a + b == chars@);
            lemma_nth_index_skip(a, b, c, n as nat);
            assert(b[0] == chars@[i as int]);
            let one = seq![chars@[i as int]];
            assert(chars@.take(i + 1) == a + one);
            lemma_count_concat(a, one, c);
            assert(one.drop_first() == Seq::<char>::empty());
            assert(count_of(one.drop_first(), c) == 0);
        }
        if chars[i] == c {
            if seen == n {
                return Some(i);
            }
            seen += 1;
        }
        i += 1;
    }
    proof {
        assert(chars@.take(i as int) == chars@);
        lemma_nth_index_range(chars@, c, n as nat);
    }
    None
}

/// Finds where `c` occurs in `chars` for the last time.
pub fn find_last(chars: &Vec<char>, c: char) -> (r: Option<usize>)
    ensures
        match r {
            Some(i) => last_index(chars@, c) == Some(i as int),
            None => last_index(chars@, c) is None,
        },
{
    let mut i: usize = chars.len();
    assert(chars@.take(i as int) == chars@);
    while i > 0
        invariant
            i <= chars.len(),
            last_index(chars@, c) == last_index(chars@.take(i as int), c),
        decreases i,
    {
        let ghost head = chars@.take(i as int);
        assert(head.last() == chars@[i - 1]);
        assert(head.drop_last() == chars@.take(i - 1));
        if chars[i - 1] == c {
            return Some(i - 1);
        }
        i -= 1;
    }
    None
}

/// Splits `s` at the place where `p` occurs after `n` earlier occurrences,
/// leaving that one character out.
pub fn split_once_nth(s: &str, p: char, n: usize) -> (r: Option<(&str, &str)>)
    ensures
        match nth_index(s@, p, n as nat) {
            Some(i) => r matches Some((left, right)) && (left@, right@) == split_around(s@, i),
            None => r is None,
        },
{
    let chars = to_chars(s);
    match find_nth(&chars, p, n) {
        Some(i) => {
            proof {
                lemma_nth_index_range(s@, p, n as nat);
            }
            assert(i < chars.len());
            let left = s.substring_char(0, i);
            let right = s.substring_char(i + 1, chars.len());
            assert(s@.subrange(0, i as int) == s@.take(i as int));
            assert(s@.subrange(i + 1, s@.len() as int) == s@.skip(i + 1));
            Some((left, right))
        },
        None => None,
    }
}

/// Splits `s` at the first `p`, leaving that one character out.
pub fn split_once(s: &str, p: char) -> (r: Option<(&str, &str)>)
    ensures
        match first_index(s@, p) {
            Some(i) => r matches Some((left, right)) && (left@, right@) == split_around(s@, i),
            None => r is None,
        },
{
    split_once_nth(s, p, 0)
}

/// Splits `s` at the last `p`, leaving that one character out.
pub fn rsplit_once(s: &str, p: char) -> (r: Option<(&str, &str)>)
    ensures
        match last_index(s@, p) {
            Some(i) => r matches Some((left, right)) && (left@, right@) == split_around(s@, i),
            None => r is None,
        },
{
    let chars = to_chars(s);
    match find_last(&chars, p) {
        Some(i) => {
            proof {
                lemma_last_index_range(s@, p);
            }
            assert(i < chars.len());
            let left = s.substring_char(0, i);
            let right = s.substring_char(i + 1, chars.len());
            assert(s@.subrange(0, i as int) == s@.take(i as int));
            assert(s@.subrange(i + 1, s@.len() as int) == s@.skip(i + 1));
            Some((left, right))
        },
        None => None,
    }
}

/// Tells whether two texts hold the same characters.
pub fn same_text(a: &str, b: &str) -> (r: bool)
    ensures
        r == (a@ == b@),
{
    let x = to_chars(a);
    let y = to_chars(b);
    if x.len() != y.len() {
        return false;
    }
    let mut i: usize = 0;
    while i < x.len()
        invariant
            i <= x.len(),
            x.len() == y.len(),
            x@ == a@,
            y@ == b@,
            x@.take(i as int) == y@.take(i as int),
        decreases x.len() - i,
    {
        if x[i] != y[i] {
            return false;
        }
        assert(x@.take(i + 1) == x@.take(i as int).push(x@[i as int]));
        assert(y@.take(i + 1) == y@.take(i as int).push(y@[i as int]));
        i += 1;
    }
    assert(x@.take(i as int) == x@);
    assert(y@.take(i as int) == y@);
    true
}

/// Whether `part` occurs in `s` as a run of characters.
pub open spec fn has_part(s: Seq<char>, part: Seq<char>) -> bool {
    exists|i: int| 0 <= i <= s.len() - part.len() && #[trigger] s.subrange(i, i + part.len()) == part
}

/// Tells whether `part` occurs in `s` from the place `at` on.
pub fn part_at(s: &Vec<char>, part: &Vec<char>, at: usize) -> (r: bool)
    requires
        at + part.len() <= s.len(),
    ensures
        r == (s@.subrange(at as int, at + part.len()) == part@),
{
    let mut j: usize = 0;
    while j < part.len()
        invariant
            j <= part.len(),
            at + part.len() <= s.len(),
            forall|k: int| 0 <= k < j ==> s@[at + k] == part@[k],
        decreases part.len() - j,
    {
        if s[at + j] != part[j] {
            assert(s@.subrange(at as int, at + part.len())[j as int] != part@[j as int]);
            return false;
        }
        j += 1;
    }
    assert(s@.subrange(at as int, at + part.len()) =~= part@);
    true
}

/// Tells whether `part` occurs in `s` as a run of characters.
pub fn contains_text(s: &str, part: &str) -> (r: bool)
    ensures
        r == has_part(s@, part@),
{
    let text = to_chars(s);
    let wanted = to_chars(part);
    if wanted.len() > text.len() {
        return false;
    }
    let last = text.len() - wanted.len();
    let mut i: usize = 0;
    while i < last
        invariant
            i <= last,
            last == text.len() - wanted.len(),
            text@ == s@,
            wanted@ == part@,
            forall|k: int| 0 <= k < i ==> #[trigger] text@.subrange(k, k + wanted.len()) != wanted@,
        decreases last - i,
    {
        if part_at(&text, &wanted, i) {
            return true;
        }
        i += 1;
    }
    part_at(&text, &wanted, last)
}

/// Whether `s` begins with the characters of `start`.
pub open spec fn starts_with(s: Seq<char>, start: Seq<char>) -> bool {
    start.len() <= s.len() && s.take(start.len() as int) == start
}

/// What is left of `s` behind `start`, where `s` begins with it.
pub fn strip_prefix<'a>(s: &'a str, start: &str) -> (r: Option<&'a str>)
    ensures
        match r {
            Some(rest) => starts_with(s@, start@) && rest@ == s@.skip(start@.len() as int),
            None => !starts_with(s@, start@),
        },
{
    let text = to_chars(s);
    let wanted = to_chars(start);
    if wanted.len() > text.len() {
        return None;
    }
    assert(s@.subrange(0, 0 + wanted.len()) == s@.take(start@.len() as int));
    if part_at(&text, &wanted, 0) {
        let rest = s.substring_char(wanted.len(), text.len());
        assert(s@.subrange(wanted.len() as int, text.len() as int) == s@.skip(
            start@.len() as int,
        ));
        Some(rest)
    } else {
        None
    }
}

/// What stands in `s` before a last character `c`, where `s` ends in it.
pub fn strip_suffix_char(s: &str, c: char) -> (r: Option<&str>)
    ensures
        match r {
            Some(rest) => s@.len() > 0 && s@.last() == c && rest@ == s@.drop_last(),
            None => !(s@.len() > 0 && s@.last() == c),
        },
{
    let text = to_chars(s);
    if text.len() > 0 && text[text.len() - 1] == c {
        let rest = s.substring_char(0, text.len() - 1);
        assert(s@.subrange(0, text.len() - 1) == s@.drop_last());
        Some(rest)
    } else {
        None
    }
}

/// How many times `c` stands at the start of `s` without a break.
pub open spec fn run_at_start(s: Seq<char>, c: char) -> int
    decreases s.len(),
{
    if s.len() > 0 && s[0] == c {
        1 + run_at_start(s.drop_first(), c)
    } else {
        0
    }
}

/// How many times `c` stands at the end of `s` without a break.
pub open spec fn run_at_end(s: Seq<char>, c: char) -> int
    decreases s.len(),
{
    if s.len() > 0 && s.last() == c {
        1 + run_at_end(s.drop_last(), c)
    } else {
        0
    }
}

/// `s` without the run of `c` at its start.
pub open spec fn without_start(s: Seq<char>, c: char) -> Seq<char> {
    s.skip(run_at_start(s, c))
}

/// `s` without the run of `c` at its end.
pub open spec fn without_end(s: Seq<char>, c: char) -> Seq<char> {
    s.take(s.len() - run_at_end(s, c))
}

/// `s` without the run of `c` at its start.
pub fn trim_start_char(s: &str, c: char) -> (r: &str)
    ensures
        r@ == without_start(s@, c),
{
    let chars = to_chars(s);
    let mut i: usize = 0;
    assert(s@.skip(0) == s@);
    while i < chars.len() && chars[i] == c
        invariant
            i <= chars.len(),
            chars@ == s@,
            run_at_start(s@, c) == i + run_at_start(s@.skip(i as int), c),
        decreases chars.len() - i,
    {
        assert(s@.skip(i as int)[0] == chars@[i as int]);
        assert(s@.skip(i as int).drop_first() == s@.skip(i + 1));
        i += 1;
    }
    proof {
        if i < chars.len() {
            assert(s@.skip(i as int)[0] == chars@[i as int]);
        }
    }
    let r = s.substring_char(i, chars.len());
    assert(s@.subrange(i as int, s@.len() as int) == s@.skip(i as int));
    r
}

/// `s` without the run of `c` at its end.
pub fn trim_end_char(s: &str, c: char) -> (r: &str)
    ensures
        r@ == without_end(s@, c),
{
    let chars = to_chars(s);
    let mut n: usize = chars.len();
    assert(s@.take(n as int) == s@);
    while n > 0 && chars[n - 1] == c
        invariant
            n <= chars.len(),
            chars@ == s@,
            run_at_end(s@, c) == (chars.len() - n) + run_at_end(s@.take(n as int), c),
        decreases n,
    {
        assert(s@.take(n as int).last() == chars@[n - 1]);
        assert(s@.take(n as int).drop_last() == s@.take(n - 1));
        n -= 1;
    }
    proof {
        if n > 0 {
            assert(s@.take(n as int).last() == chars@[n - 1]);
        }
    }
    let r = s.substring_char(0, n);
    assert(s@.subrange(0, n as int) == s@.take(n as int));
    r
}

/// Where `part` occurs in `s` for the first time: at that place it occurs, and
/// at no place before.
pub open spec fn first_part_at(s: Seq<char>, part: Seq<char>, i: int) -> bool {
    &&& 0 <= i <= s.len() - part.len()
    &&& s.subrange(i, i + part.len()) == part
    &&& forall|k: int| 0 <= k < i ==> #[trigger] s.subrange(k, k + part.len()) != part
}

/// Finds where `part` occurs in `s` for the first time.
pub fn find_part(s: &Vec<char>, part: &Vec<char>) -> (r: Option<usize>)
    ensures
        match r {
            Some(i) => first_part_at(s@, part@, i as int),
            None => !has_part(s@, part@),
        },
{
    if part.len() > s.len() {
        return None;
    }
    let last = s.len() - part.len();
    let mut i: usize = 0;
    while i < last
        invariant
            i <= last,
            last == s.len() - part.len(),
            forall|k: int| 0 <= k < i ==> #[trigger] s@.subrange(k, k + part.len()) != part@,
        decreases last - i,
    {
        if part_at(s, part, i) {
            return Some(i);
        }
        i += 1;
    }
    if part_at(s, part, last) {
        Some(last)
    } else {
        None
    }
}

} // verus!
