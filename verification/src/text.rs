//! Text as sequences of characters: the few conversions between `str`,
//! `String` and `Vec<char>` that the rest of the library builds on.

use vstd::prelude::*;

verus! {

/// The characters of `s`, in order.
pub fn chars_of(s: &str) -> (chars: Vec<char>)
    ensures
        chars@ == s@,
{
    let mut chars: Vec<char> = Vec::new();
    let it = s.chars();
    for c in iter: it
        invariant
            chars@ == iter.seq().take(iter.index()),
            iter.seq() == s@,
    {
        chars.push(c);
    }
    chars
}

/// `text` without the white space at its ends; the result of `str::trim`.
pub uninterp spec fn trimmed(text: Seq<char>) -> Seq<char>;

/// Calls `str::trim` of the standard library and names what it returns.
#[verifier::external_body]
pub(crate) fn trim(text: &str) -> (inner: String)
    ensures
        inner@ == trimmed(text@),
{
    text.trim().to_owned()
}

/// Appends one character to `s`, with `String::push` of the standard
/// library.
#[verifier::external_body]
fn push_char(s: &mut String, c: char)
    ensures
        final(s)@ == old(s)@.push(c),
{
    s.push(c)
}

/// The string made of `chars`, in order.
pub fn string_of(chars: &Vec<char>) -> (s: String)
    ensures
        s@ == chars@,
{
    let mut s = String::new();
    let mut i: usize = 0;
    while i < chars.len()
        invariant
            i <= chars.len(),
            s@ == chars@.take(i as int),
        decreases chars.len() - i,
    {
        push_char(&mut s, chars[i]);
        i += 1;
        assert(chars@.take(i as int) == chars@.take(i - 1).push(chars@[i - 1]));
    }
    assert(chars@.take(chars.len() as int) == chars@);
    s
}

/// Whether `needle` stands in `hay` at position `at`.
pub open spec fn occurs_at(hay: Seq<char>, needle: Seq<char>, at: int) -> bool {
    0 <= at && at + needle.len() <= hay.len() && hay.subrange(at, at + needle.len()) == needle
}

/// Whether `needle` stands somewhere in `hay`.
pub open spec fn occurs_in(hay: Seq<char>, needle: Seq<char>) -> bool {
    exists|at: int| occurs_at(hay, needle, at)
}

/// Whether `needle` stands in `hay` at position `at`.
pub fn matches_at(hay: &Vec<char>, needle: &Vec<char>, at: usize) -> (found: bool)
    requires
        at + needle.len() <= hay.len(),
    ensures
        found == occurs_at(hay@, needle@, at as int),
{
    let mut k: usize = 0;
    while k < needle.len()
        invariant
            k <= needle.len(),
            at + needle.len() <= hay.len(),
            forall|j: int| 0 <= j < k ==> hay@[at + j] == needle@[j],
        decreases needle.len() - k,
    {
        if hay[at + k] != needle[k] {
            assert(hay@.subrange(at as int, at + needle.len())[k as int] != needle@[k as int]);
            return false;
        }
        k += 1;
    }
    assert(hay@.subrange(at as int, at + needle.len()) =~= needle@);
    true
}

/// Whether `needle` stands somewhere in `hay`.
pub fn contains_text(hay: &Vec<char>, needle: &Vec<char>) -> (found: bool)
    ensures
        found == occurs_in(hay@, needle@),
{
    if needle.len() > hay.len() {
        return false;
    }
    let last: usize = hay.len() - needle.len();
    let mut at: usize = 0;
    loop
        invariant
            last == hay.len() - needle.len(),
            at <= last,
            forall|j: int| 0 <= j < at ==> !occurs_at(hay@, needle@, j),
        decreases last - at,
    {
        if matches_at(hay, needle, at) {
            return true;
        }
        if at == last {
            return false;
        }
        at += 1;
    }
}

/// Whether two texts hold the same characters.
pub fn same_text(a: &Vec<char>, b: &Vec<char>) -> (same: bool)
    ensures
        same == (a@ == b@),
{
    if a.len() != b.len() {
        return false;
    }
    let same = matches_at(a, b, 0);
    assert(a@.subrange(0, a@.len() as int) == a@);
    same
}

/// Whether `s` holds exactly the characters of `wanted`.
pub fn text_is(s: &Vec<char>, wanted: &str) -> (same: bool)
    ensures
        same == (s@ == wanted@),
{
    let w = chars_of(wanted);
    same_text(s, &w)
}

/// The digit that stands for `d`.
pub open spec fn digit_char(d: int) -> char {
    if d == 0 {
        '0'
    } else if d == 1 {
        '1'
    } else if d == 2 {
        '2'
    } else if d == 3 {
        '3'
    } else if d == 4 {
        '4'
    } else if d == 5 {
        '5'
    } else if d == 6 {
        '6'
    } else if d == 7 {
        '7'
    } else if d == 8 {
        '8'
    } else {
        '9'
    }
}

/// `n` in decimal digits, without a sign or leading zeros.
pub open spec fn decimal(n: nat) -> Seq<char>
    decreases n,
{
    if n < 10 {
        seq![digit_char(n as int)]
    } else {
        decimal(n / 10).push(digit_char((n % 10) as int))
    }
}

fn digit_of(d: u64) -> (c: char)
    requires
        d < 10,
    ensures
        c == digit_char(d as int),
{
    if d == 0 {
        '0'
    } else if d == 1 {
        '1'
    } else if d == 2 {
        '2'
    } else if d == 3 {
        '3'
    } else if d == 4 {
        '4'
    } else if d == 5 {
        '5'
    } else if d == 6 {
        '6'
    } else if d == 7 {
        '7'
    } else if d == 8 {
        '8'
    } else {
        '9'
    }
}

/// Appends `n` in decimal digits to `out`.
pub fn push_decimal(out: &mut Vec<char>, n: u64)
    ensures
        final(out)@ == old(out)@ + decimal(n as nat),
    decreases n,
{
    if n >= 10 {
        push_decimal(out, n / 10);
    }
    out.push(digit_of(n % 10));
    assert(final(out)@ =~= old(out)@ + decimal(n as nat));
}

/// Appends the characters of `s` to `out`.
pub fn push_str_chars(out: &mut Vec<char>, s: &str)
    ensures
        final(out)@ == old(out)@ + s@,
{
    let mut more = chars_of(s);
    out.append(&mut more);
}

/// Appends the characters of `more` to `out`.
pub fn push_chars(out: &mut Vec<char>, more: &Vec<char>)
    ensures
        final(out)@ == old(out)@ + more@,
{
    let mut i: usize = 0;
    while i < more.len()
        invariant
            i <= more.len(),
            out@ == old(out)@ + more@.take(i as int),
        decreases more.len() - i,
    {
        out.push(more[i]);
        i += 1;
        assert(out@ =~= old(out)@ + more@.take(i as int));
    }
    assert(more@.take(more.len() as int) == more@);
}

/// The place of the first of `chars` that `stops` holds, or the length of
/// `chars` where it holds none.
pub open spec fn first_stop(chars: Seq<char>, stops: Seq<char>) -> int
    decreases chars.len(),
{
    if chars.len() == 0 || stops.contains(chars[0]) {
        0
    } else {
        1 + first_stop(chars.skip(1), stops)
    }
}

/// `first_stop` is a place in `chars` or its end, nothing before it is a
/// stop, and what stands at it is one.
pub proof fn lemma_first_stop(chars: Seq<char>, stops: Seq<char>)
    ensures
        0 <= first_stop(chars, stops) <= chars.len(),
        forall|i: int| 0 <= i < first_stop(chars, stops) ==> !stops.contains(#[trigger] chars[i]),
        first_stop(chars, stops) < chars.len() ==> stops.contains(
            chars[first_stop(chars, stops)],
        ),
    decreases chars.len(),
{
    if chars.len() == 0 || stops.contains(chars[0]) {
    } else {
        let rest = chars.skip(1);
        lemma_first_stop(rest, stops);
        assert forall|i: int| 0 <= i < first_stop(chars, stops) implies !stops.contains(
            #[trigger] chars[i],
        ) by {
            if i > 0 {
                assert(chars[i] == rest[i - 1]);
            }
        }
        if first_stop(chars, stops) < chars.len() {
            assert(chars[first_stop(chars, stops)] == rest[first_stop(rest, stops)]);
        }
    }
}

/// Whether `list` holds `c`.
pub fn holds_char(list: &Vec<char>, c: char) -> (found: bool)
    ensures
        found == list@.contains(c),
{
    let mut i: usize = 0;
    while i < list.len()
        invariant
            i <= list.len(),
            forall|j: int| 0 <= j < i ==> list@[j] != c,
        decreases list.len() - i,
    {
        if list[i] == c {
            return true;
        }
        i += 1;
    }
    false
}

/// The place of the first of `chars` that `stops` holds, or the length of
/// `chars`.
pub fn find_stop(chars: &Vec<char>, stops: &Vec<char>) -> (at: usize)
    ensures
        at == first_stop(chars@, stops@),
        at <= chars.len(),
{
    let mut at: usize = 0;
    assert(chars@.skip(0) == chars@);
    while at < chars.len()
        invariant
            at <= chars.len(),
            first_stop(chars@, stops@) == at + first_stop(chars@.skip(at as int), stops@),
        decreases chars.len() - at,
    {
        let ghost rest = chars@.skip(at as int);
        assert(rest[0] == chars@[at as int]);
        if holds_char(stops, chars[at]) {
            return at;
        }
        assert(rest.skip(1) == chars@.skip(at + 1));
        at += 1;
    }
    assert(chars@.skip(at as int).len() == 0);
    at
}

/// The place of the last `c` in `chars`, if `chars` holds one.
pub open spec fn last_place(chars: Seq<char>, c: char) -> Option<int>
    decreases chars.len(),
{
    if chars.len() == 0 {
        None
    } else if chars.last() == c {
        Some(chars.len() - 1)
    } else {
        last_place(chars.drop_last(), c)
    }
}

/// `last_place` names a place that holds `c` with no `c` behind it, or
/// nothing where `chars` holds no `c`.
pub proof fn lemma_last_place(chars: Seq<char>, c: char)
    ensures
        match last_place(chars, c) {
            Some(at) => 0 <= at < chars.len() && chars[at] == c && forall|i: int|
                at < i < chars.len() ==> chars[i] != c,
            None => !chars.contains(c),
        },
    decreases chars.len(),
{
    if chars.len() > 0 && chars.last() != c {
        let rest = chars.drop_last();
        lemma_last_place(rest, c);
        match last_place(rest, c) {
            Some(at) => {
                assert(chars[at] == rest[at]);
                assert forall|i: int| at < i < chars.len() implies chars[i] != c by {
                    if i < rest.len() {
                        assert(chars[i] == rest[i]);
                    }
                }
            },
            None => {
                if chars.contains(c) {
                    let i = choose|i: int| 0 <= i < chars.len() && chars[i] == c;
                    assert(rest[i] == c);
                }
            },
        }
    }
}

/// The place of the last `c` in `chars`, if `chars` holds one.
pub fn find_last(chars: &Vec<char>, c: char) -> (at: Option<usize>)
    ensures
        match at {
            Some(i) => last_place(chars@, c) == Some(i as int) && i < chars.len(),
            None => last_place(chars@, c) is None,
        },
{
    let mut end: usize = chars.len();
    assert(chars@.take(end as int) == chars@);
    while end > 0
        invariant
            end <= chars.len(),
            last_place(chars@, c) == last_place(chars@.take(end as int), c),
        decreases end,
    {
        let ghost head = chars@.take(end as int);
        assert(head.last() == chars@[end - 1]);
        if chars[end - 1] == c {
            return Some(end - 1);
        }
        assert(head.drop_last() == chars@.take(end - 1));
        end -= 1;
    }
    None
}

/// The characters of `chars` from `from` up to `to`.
pub fn slice_of(chars: &Vec<char>, from: usize, to: usize) -> (part: Vec<char>)
    requires
        from <= to <= chars.len(),
    ensures
        part@ == chars@.subrange(from as int, to as int),
{
    let mut part: Vec<char> = Vec::new();
    let mut i: usize = from;
    while i < to
        invariant
            from <= i <= to,
            to <= chars.len(),
            part@ == chars@.subrange(from as int, i as int),
        decreases to - i,
    {
        part.push(chars[i]);
        i += 1;
        assert(part@ =~= chars@.subrange(from as int, i as int));
    }
    part
}

} // verus!
