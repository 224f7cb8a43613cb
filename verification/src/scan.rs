//! Scanning of text: trimming, splitting, replacing and reading numbers.

use vstd::prelude::*;

verus! {

/// Whether `c` is white space: a character with the Unicode property
/// `White_Space`.
pub open spec fn is_space(c: char) -> bool {
    let u = c as u32;
    ||| 0x09 <= u <= 0x0D
    ||| u == 0x20
    ||| u == 0x85
    ||| u == 0xA0
    ||| u == 0x1680
    ||| 0x2000 <= u <= 0x200A
    ||| u == 0x2028
    ||| u == 0x2029
    ||| u == 0x202F
    ||| u == 0x205F
    ||| u == 0x3000
}

/// Whether `c` is white space.
pub fn is_whitespace(c: char) -> (r: bool)
    ensures
        r == is_space(c),
{
    let u = c as u32;
    (0x09 <= u && u <= 0x0D) || u == 0x20 || u == 0x85 || u == 0xA0 || u == 0x1680 || (0x2000 <= u
        && u <= 0x200A) || u == 0x2028 || u == 0x2029 || u == 0x202F || u == 0x205F || u == 0x3000
}

/// What is stripped from the ends of a text.
#[derive(Debug, Clone, Copy, PartialEq, Eq, Structural)]
pub enum Strip {
    /// White space.
    Space,
    /// Double quotes.
    Quote,
}

impl Strip {
    /// Whether `c` is stripped.
    pub open spec fn takes(self, c: char) -> bool {
        match self {
            Strip::Space => is_space(c),
            Strip::Quote => c == '"',
        }
    }

    /// Whether `c` is stripped.
    pub fn strips(self, c: char) -> (r: bool)
        ensures
            r == self.takes(c),
    {
        match self {
            Strip::Space => is_whitespace(c),
            Strip::Quote => c == '"',
        }
    }
}

/// `s` without the stripped characters at its start.
pub open spec fn strip_start(s: Seq<char>, what: Strip) -> Seq<char>
    decreases s.len(),
{
    if s.len() > 0 && what.takes(s[0]) {
        strip_start(s.drop_first(), what)
    } else {
        s
    }
}

/// `s` without the stripped characters at its end.
pub open spec fn strip_end(s: Seq<char>, what: Strip) -> Seq<char>
    decreases s.len(),
{
    if s.len() > 0 && what.takes(s.last()) {
        strip_end(s.drop_last(), what)
    } else {
        s
    }
}

/// `s` without the stripped characters at both ends.
pub open spec fn strip(s: Seq<char>, what: Strip) -> Seq<char> {
    strip_end(strip_start(s, what), what)
}

/// `s` without white space at both ends.
pub open spec fn trimmed(s: Seq<char>) -> Seq<char> {
    strip(s, Strip::Space)
}

/// The bounds of `s[from..to]` without the stripped characters at both ends.
pub fn strip_bounds(s: &Vec<char>, from: usize, to: usize, what: Strip) -> (r: (usize, usize))
    requires
        from <= to <= s@.len(),
    ensures
        from <= r.0 <= r.1 <= to,
        s@.subrange(r.0 as int, r.1 as int) == strip(s@.subrange(from as int, to as int), what),
{
    let mut a: usize = from;
    while a < to && what.strips(s[a])
        invariant
            from <= a <= to <= s@.len(),
            strip_start(s@.subrange(from as int, to as int), what) == strip_start(
                s@.subrange(a as int, to as int),
                what,
            ),
        decreases to - a,
    {
        proof {
            assert(s@.subrange(a as int, to as int).drop_first() =~= s@.subrange(
                a + 1,
                to as int,
            ));
        }
        a += 1;
    }
    let mut b: usize = to;
    while a < b && what.strips(s[b - 1])
        invariant
            a <= b <= to <= s@.len(),
            strip_end(s@.subrange(a as int, to as int), what) == strip_end(
                s@.subrange(a as int, b as int),
                what,
            ),
        decreases b - a,
    {
        proof {
            assert(s@.subrange(a as int, b as int).drop_last() =~= s@.subrange(
                a as int,
                b - 1,
            ));
        }
        b -= 1;
    }
    proof {
        let middle = s@.subrange(a as int, to as int);
        assert(strip_start(middle, what) == middle);
        let inner = s@.subrange(a as int, b as int);
        assert(strip_end(inner, what) == inner);
    }
    (a, b)
}

/// The position of the first `c` in `s`, or the length of `s` if it holds
/// none.
pub open spec fn first_index(s: Seq<char>, c: char) -> int
    decreases s.len(),
{
    if s.len() == 0 || s[0] == c {
        0
    } else {
        1 + first_index(s.drop_first(), c)
    }
}

/// `first_index` is the least position that holds `c`.
pub proof fn lemma_first_index(s: Seq<char>, c: char, at: int)
    requires
        0 <= at <= s.len(),
        forall|k: int| 0 <= k < at ==> s[k] != c,
        at < s.len() ==> s[at] == c,
    ensures
        first_index(s, c) == at,
    decreases at,
{
    if at > 0 {
        let rest = s.drop_first();
        assert forall|k: int| 0 <= k < at - 1 implies rest[k] != c by {
            assert(rest[k] == s[k + 1]);
        }
        lemma_first_index(rest, c, at - 1);
    }
}

/// The first position in `s[from..to]` that holds `c`, counted from the
/// start of `s`.
pub fn find_in(s: &Vec<char>, c: char, from: usize, to: usize) -> (r: Option<usize>)
    requires
        from <= to <= s@.len(),
    ensures
        match r {
            Some(at) => {
                &&& from <= at < to
                &&& s@[at as int] == c
                &&& forall|k: int| from <= k < at ==> s@[k] != c
                &&& first_index(s@.subrange(from as int, to as int), c) == at - from
            },
            None => {
                &&& forall|k: int| from <= k < to ==> s@[k] != c
                &&& first_index(s@.subrange(from as int, to as int), c) == to - from
            },
        },
        r is Some <==> s@.subrange(from as int, to as int).contains(c),
{
    let ghost part = s@.subrange(from as int, to as int);
    let mut i: usize = from;
    while i < to
        invariant
            from <= i <= to <= s@.len(),
            part == s@.subrange(from as int, to as int),
            forall|k: int| from <= k < i ==> s@[k] != c,
        decreases to - i,
    {
        if s[i] == c {
            proof {
                assert(part[i - from] == c);
                assert forall|k: int| 0 <= k < i - from implies part[k] != c by {
                    assert(part[k] == s@[from + k]);
                }
                lemma_first_index(part, c, i - from);
            }
            return Some(i);
        }
        i += 1;
    }
    proof {
        assert forall|k: int| 0 <= k < to - from implies part[k] != c by {
            assert(part[k] == s@[from + k]);
        }
        lemma_first_index(part, c, to - from);
    }
    None
}

/// The parts of `s` before and after its first `c`, if it holds one.
pub open spec fn split_once(s: Seq<char>, c: char) -> Option<(Seq<char>, Seq<char>)> {
    if 0 <= first_index(s, c) < s.len() {
        Some((s.take(first_index(s, c)), s.skip(first_index(s, c) + 1)))
    } else {
        None
    }
}

/// The pieces of `s` between the occurrences of `c`. A text without `c` is
/// one piece.
pub open spec fn split(s: Seq<char>, c: char) -> Seq<Seq<char>>
    decreases s.len(),
{
    if 0 <= first_index(s, c) < s.len() {
        seq![s.take(first_index(s, c))] + split(s.skip(first_index(s, c) + 1), c)
    } else {
        seq![s]
    }
}

/// The bounds, in `s`, of the pieces of `s[from..to]` between the
/// occurrences of `c`.
pub fn split_bounds(s: &Vec<char>, c: char, from: usize, to: usize) -> (r: Vec<(usize, usize)>)
    requires
        from <= to <= s@.len(),
    ensures
        pieces(s@, r@) == split(s@.subrange(from as int, to as int), c),
        forall|i: int| 0 <= i < r@.len() ==> from <= (#[trigger] r@[i]).0 <= r@[i].1 <= to,
{
    let mut r: Vec<(usize, usize)> = Vec::new();
    let mut start: usize = from;
    let ghost whole = split(s@.subrange(from as int, to as int), c);
    loop
        invariant_except_break
            whole == pieces(s@, r@) + split(s@.subrange(start as int, to as int), c),
        invariant
            from <= start <= to <= s@.len(),
            whole == split(s@.subrange(from as int, to as int), c),
            forall|i: int| 0 <= i < r@.len() ==> from <= (#[trigger] r@[i]).0 <= r@[i].1 <= to,
        ensures
            whole == pieces(s@, r@),
            forall|i: int| 0 <= i < r@.len() ==> from <= (#[trigger] r@[i]).0 <= r@[i].1 <= to,
        decreases to - start,
    {
        let ghost rest = s@.subrange(start as int, to as int);
        let ghost done = pieces(s@, r@);
        match find_in(s, c, start, to) {
            Some(at) => {
                r.push((start, at));
                proof {
                    assert(rest.take(at - start) =~= s@.subrange(start as int, at as int));
                    assert(rest.skip(at - start + 1) =~= s@.subrange(at + 1, to as int));
                    assert(pieces(s@, r@) =~= done.push(s@.subrange(start as int, at as int)));
                    assert(done + (seq![rest.take(at - start)] + split(
                        rest.skip(at - start + 1),
                        c,
                    )) =~= done.push(rest.take(at - start)) + split(
                        rest.skip(at - start + 1),
                        c,
                    ));
                }
                start = at + 1;
            },
            None => {
                r.push((start, to));
                proof {
                    assert(pieces(s@, r@) =~= done.push(rest));
                    assert(done + seq![rest] =~= done.push(rest));
                }
                break ;
            },
        }
    }
    r
}

/// The texts that `bounds` cut out of `s`.
pub open spec fn pieces(s: Seq<char>, bounds: Seq<(usize, usize)>) -> Seq<Seq<char>> {
    Seq::new(bounds.len(), |i: int| s.subrange(bounds[i].0 as int, bounds[i].1 as int))
}

/// The number of characters at the start of `s` that are not white space.
pub open spec fn word_len(s: Seq<char>) -> int
    decreases s.len(),
{
    if s.len() == 0 || is_space(s[0]) {
        0
    } else {
        1 + word_len(s.drop_first())
    }
}

/// The first word of `s`, where words are separated by white space, and what
/// follows it. There is none where `s` holds white space only.
pub open spec fn first_word(s: Seq<char>) -> Option<(Seq<char>, Seq<char>)> {
    let t = strip_start(s, Strip::Space);
    if t.len() == 0 {
        None
    } else {
        Some((t.take(word_len(t)), t.skip(word_len(t))))
    }
}

proof fn lemma_word_len(s: Seq<char>, n: int)
    requires
        0 <= n <= s.len(),
        forall|k: int| 0 <= k < n ==> !is_space(s[k]),
        n < s.len() ==> is_space(s[n]),
    ensures
        word_len(s) == n,
    decreases n,
{
    if n > 0 {
        let rest = s.drop_first();
        assert forall|k: int| 0 <= k < n - 1 implies !is_space(rest[k]) by {
            assert(rest[k] == s[k + 1]);
        }
        lemma_word_len(rest, n - 1);
    }
}

/// The bounds, in `s`, of the first word of `s[from..to]`.
pub fn word_bounds(s: &Vec<char>, from: usize, to: usize) -> (r: Option<(usize, usize)>)
    requires
        from <= to <= s@.len(),
    ensures
        match r {
            Some((a, b)) => from <= a < b <= to && first_word(s@.subrange(from as int, to as int))
                == Some(
                (s@.subrange(a as int, b as int), s@.subrange(b as int, to as int)),
            ),
            None => first_word(s@.subrange(from as int, to as int)) is None,
        },
{
    let mut a: usize = from;
    while a < to && is_whitespace(s[a])
        invariant
            from <= a <= to <= s@.len(),
            strip_start(s@.subrange(from as int, to as int), Strip::Space) == strip_start(
                s@.subrange(a as int, to as int),
                Strip::Space,
            ),
        decreases to - a,
    {
        proof {
            assert(s@.subrange(a as int, to as int).drop_first() =~= s@.subrange(
                a + 1,
                to as int,
            ));
        }
        a += 1;
    }
    let ghost t = s@.subrange(a as int, to as int);
    proof {
        assert(strip_start(t, Strip::Space) == t);
    }
    if a == to {
        return None;
    }
    let mut b: usize = a;
    while b < to && !is_whitespace(s[b])
        invariant
            a <= b <= to <= s@.len(),
            t == s@.subrange(a as int, to as int),
            forall|k: int| 0 <= k < b - a ==> !is_space(t[k]),
        decreases to - b,
    {
        b += 1;
    }
    proof {
        lemma_word_len(t, b - a);
        assert(t.take(b - a) =~= s@.subrange(a as int, b as int));
        assert(t.skip(b - a) =~= s@.subrange(b as int, to as int));
    }
    Some((a, b))
}

/// `s` with every occurrence of `from` replaced by `to`, found from left to
/// right and not overlapping. An empty `from` replaces nothing.
pub open spec fn replaced(s: Seq<char>, from: Seq<char>, to: Seq<char>) -> Seq<char>
    decreases s.len(),
{
    if from.len() == 0 || s.len() == 0 {
        s
    } else if from.len() <= s.len() && s.take(from.len() as int) == from {
        to + replaced(s.skip(from.len() as int), from, to)
    } else {
        seq![s[0]] + replaced(s.drop_first(), from, to)
    }
}

/// `s` with every occurrence of `from` replaced by `to`.
pub fn replace(s: &Vec<char>, from: &Vec<char>, to: &Vec<char>) -> (r: Vec<char>)
    ensures
        r@ == replaced(s@, from@, to@),
{
    let mut r: Vec<char> = Vec::new();
    if from.len() == 0 {
        let mut k: usize = 0;
        while k < s.len()
            invariant
                k <= s@.len(),
                r@ == s@.take(k as int),
            decreases s@.len() - k,
        {
            r.push(s[k]);
            proof {
                assert(r@ =~= s@.take(k + 1));
            }
            k += 1;
        }
        proof {
            assert(s@.take(s@.len() as int) =~= s@);
        }
        return r;
    }
    let mut i: usize = 0;
    proof {
        assert(s@.skip(0) =~= s@);
        assert(r@ + replaced(s@, from@, to@) =~= replaced(s@, from@, to@));
    }
    while i < s.len()
        invariant
            i <= s@.len(),
            from@.len() > 0,
            r@ + replaced(s@.skip(i as int), from@, to@) == replaced(s@, from@, to@),
        decreases s@.len() - i,
    {
        let ghost rest = s@.skip(i as int);
        let ghost before = r@;
        if crate::text::matches_at(s, from, i) {
            proof {
                assert(rest.take(from@.len() as int) =~= s@.subrange(
                    i as int,
                    i + from@.len(),
                ));
                assert(rest.skip(from@.len() as int) =~= s@.skip(i + from@.len()));
            }
            let mut k: usize = 0;
            while k < to.len()
                invariant
                    k <= to@.len(),
                    r@ == before + to@.take(k as int),
                decreases to@.len() - k,
            {
                r.push(to[k]);
                proof {
                    assert(r@ =~= before + to@.take(k + 1));
                }
                k += 1;
            }
            proof {
                assert(to@.take(to@.len() as int) =~= to@);
                assert(before + to@ + replaced(rest.skip(from@.len() as int), from@, to@)
                    =~= before + (to@ + replaced(rest.skip(from@.len() as int), from@, to@)));
            }
            i += from.len();
        } else {
            proof {
                if from@.len() <= rest.len() {
                    assert(rest.take(from@.len() as int) =~= s@.subrange(
                        i as int,
                        i + from@.len(),
                    ));
                }
                assert(rest.drop_first() =~= s@.skip(i + 1));
                assert(rest[0] == s@[i as int]);
            }
            r.push(s[i]);
            proof {
                assert(before.push(rest[0]) + replaced(rest.drop_first(), from@, to@) =~= before
                    + (seq![rest[0]] + replaced(rest.drop_first(), from@, to@)));
            }
            i += 1;
        }
    }
    proof {
        assert(s@.skip(s@.len() as int) =~= Seq::<char>::empty());
        assert(r@ + Seq::<char>::empty() =~= r@);
    }
    r
}

/// Whether `c` is a decimal digit.
pub open spec fn is_digit(c: char) -> bool {
    '0' <= c <= '9'
}

/// The number that the decimal digits `s` stand for.
pub open spec fn digits_value(s: Seq<char>) -> nat
    decreases s.len(),
{
    if s.len() == 0 {
        0
    } else {
        digits_value(s.drop_last()) * 10 + (s.last() as u32 - '0' as u32) as nat
    }
}

/// The number that `s` stands for, if `s` is made of decimal digits, at
/// least one, and the number is at most 2 to the power of 63.
pub open spec fn magnitude_of(s: Seq<char>) -> Option<u64> {
    if s.len() == 0 || !(forall|i: int| 0 <= i < s.len() ==> is_digit(s[i])) {
        None
    } else if digits_value(s) <= 0x8000_0000_0000_0000 {
        Some(digits_value(s) as u64)
    } else {
        None
    }
}

/// The integer that `s` stands for: decimal digits, at least one, after an
/// optional sign, within the range of 64 bits.
pub open spec fn integer_of(s: Seq<char>) -> Option<i64> {
    let signed = s.len() > 0 && (s[0] == '-' || s[0] == '+');
    let negative = s.len() > 0 && s[0] == '-';
    let body = if signed {
        s.drop_first()
    } else {
        s
    };
    match magnitude_of(body) {
        None => None,
        Some(m) => if negative {
            Some((-(m as int)) as i64)
        } else if m < 0x8000_0000_0000_0000 {
            Some(m as i64)
        } else {
            None
        },
    }
}

proof fn lemma_digits_grow(s: Seq<char>, n: int)
    requires
        0 <= n <= s.len(),
    ensures
        digits_value(s.take(n)) <= digits_value(s),
    decreases s.len() - n,
{
    if n < s.len() {
        lemma_digits_grow(s, n + 1);
        assert(s.take(n + 1).drop_last() =~= s.take(n));
    } else {
        assert(s.take(n) =~= s);
    }
}

fn parse_magnitude(s: &Vec<char>, from: usize, to: usize) -> (r: Option<u64>)
    requires
        from <= to <= s@.len(),
    ensures
        r == magnitude_of(s@.subrange(from as int, to as int)),
{
    let ghost body = s@.subrange(from as int, to as int);
    if from == to {
        return None;
    }
    let mut acc: u64 = 0;
    let mut i: usize = from;
    while i < to
        invariant
            from <= i <= to <= s@.len(),
            from < to,
            body == s@.subrange(from as int, to as int),
            forall|k: int| 0 <= k < i - from ==> is_digit(body[k]),
            acc == digits_value(body.take(i - from)),
            acc <= 0x8000_0000_0000_0000,
        decreases to - i,
    {
        let c = s[i];
        proof {
            assert(body[i - from] == c);
        }
        if !('0' <= c && c <= '9') {
            return None;
        }
        let d = (c as u32 - '0' as u32) as u64;
        proof {
            assert(body.take(i - from + 1).drop_last() =~= body.take(i - from));
            assert(body.take(i - from + 1).last() == c);
            lemma_digits_grow(body, i - from + 1);
        }
        if acc > 922337203685477580 || acc * 10 + d > 0x8000_0000_0000_0000 {
            return None;
        }
        acc = acc * 10 + d;
        i += 1;
    }
    proof {
        assert(body.take(to - from) =~= body);
    }
    Some(acc)
}

/// Reads `s[from..to]` as a signed integer of 64 bits.
pub fn parse_i64(s: &Vec<char>, from: usize, to: usize) -> (r: Option<i64>)
    requires
        from <= to <= s@.len(),
    ensures
        r == integer_of(s@.subrange(from as int, to as int)),
{
    let ghost text = s@.subrange(from as int, to as int);
    let mut start: usize = from;
    let mut negative = false;
    if from < to && (s[from] == '-' || s[from] == '+') {
        negative = s[from] == '-';
        start = from + 1;
    }
    proof {
        let body = s@.subrange(start as int, to as int);
        if from < to {
            assert(text[0] == s@[from as int]);
        }
        if start > from {
            assert(text.drop_first() =~= body);
        } else {
            assert(text =~= body);
        }
    }
    match parse_magnitude(s, start, to) {
        None => None,
        Some(m) => {
            if negative {
                if m == 0x8000_0000_0000_0000 {
                    Some(i64::MIN)
                } else {
                    Some(-(m as i64))
                }
            } else if m < 0x8000_0000_0000_0000 {
                Some(m as i64)
            } else {
                None
            }
        },
    }
}

} // verus!
