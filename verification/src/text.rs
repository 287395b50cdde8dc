//! Characters and character sequences: white space, trimming, and the few
//! string operations the rest of the library is built from.

use vstd::prelude::*;

verus! {

/// The characters with the Unicode property `White_Space`.
pub open spec fn is_whitespace(c: char) -> bool {
    ||| ('\u{9}' <= c && c <= '\u{d}')
    ||| c == ' '
    ||| c == '\u{85}'
    ||| c == '\u{a0}'
    ||| c == '\u{1680}'
    ||| ('\u{2000}' <= c && c <= '\u{200a}')
    ||| c == '\u{2028}'
    ||| c == '\u{2029}'
    ||| c == '\u{202f}'
    ||| c == '\u{205f}'
    ||| c == '\u{3000}'
}

/// `s` without its trailing white space.
pub open spec fn trim_end(s: Seq<char>) -> Seq<char>
    decreases s.len(),
{
    if s.len() > 0 && is_whitespace(s.last()) {
        trim_end(s.drop_last())
    } else {
        s
    }
}

/// `s` without its leading white space.
pub open spec fn trim_start(s: Seq<char>) -> Seq<char>
    decreases s.len(),
{
    if s.len() > 0 && is_whitespace(s[0]) {
        trim_start(s.drop_first())
    } else {
        s
    }
}

/// `s` without leading and trailing white space.
pub open spec fn trim(s: Seq<char>) -> Seq<char> {
    trim_end(trim_start(s))
}

/// The index of the first white space character of `s`, or the length of `s`
/// where it has none.
pub open spec fn first_whitespace(s: Seq<char>) -> int
    decreases s.len(),
{
    if s.len() == 0 || is_whitespace(s[0]) {
        0
    } else {
        1 + first_whitespace(s.drop_first())
    }
}

/// `s` without one pair of double quotes around it, where it has one.
pub open spec fn unquote(s: Seq<char>) -> Seq<char> {
    if s.len() >= 2 && s[0] == '"' && s.last() == '"' {
        s.subrange(1, s.len() - 1)
    } else {
        s
    }
}

/// The items of `items` with `separator` between each two of them.
pub open spec fn join(items: Seq<Seq<char>>, separator: Seq<char>) -> Seq<char>
    decreases items.len(),
{
    if items.len() == 0 {
        Seq::empty()
    } else if items.len() == 1 {
        items[0]
    } else {
        join(items.drop_last(), separator) + separator + items.last()
    }
}

/// The decimal digits of `n`, most significant first.
pub open spec fn decimal(n: nat) -> Seq<char>
    decreases n,
{
    if n < 10 {
        seq![digit(n)]
    } else {
        decimal(n / 10).push(digit(n % 10))
    }
}

/// The character of the digit `d`.
pub open spec fn digit(d: nat) -> char {
    if d == 0 {
        '0'
    } else if d == 1 {
        '1'
    } else if d == 2 {
        '2'
    } else if d == 3 {
        '3'
    } else if d == 4 {
        '4'
    } else if d == 5 {
        '5'
    } else if d == 6 {
        '6'
    } else if d == 7 {
        '7'
    } else if d == 8 {
        '8'
    } else {
        '9'
    }
}

/// A sequence that ends at `k`, with only white space behind it and none just
/// before it, is the sequence trimmed at its end.
pub proof fn lemma_trim_end_at(s: Seq<char>, k: int)
    requires
        0 <= k <= s.len(),
        forall|i: int| k <= i < s.len() ==> is_whitespace(#[trigger] s[i]),
        k == 0 || !is_whitespace(s[k - 1]),
    ensures
        trim_end(s) == s.take(k),
    decreases s.len() - k,
{
    if k == s.len() {
        assert(s.take(k) =~= s);
    } else {
        let t = s.drop_last();
        assert(is_whitespace(s[s.len() - 1]));
        assert forall|i: int| k <= i < t.len() implies is_whitespace(#[trigger] t[i]) by {
            assert(t[i] == s[i]);
        }
        lemma_trim_end_at(t, k);
        assert(t.take(k) =~= s.take(k));
    }
}

/// A sequence that starts at `k`, with only white space before it and none
/// at it, is the sequence trimmed at its start.
pub proof fn lemma_trim_start_at(s: Seq<char>, k: int)
    requires
        0 <= k <= s.len(),
        forall|i: int| 0 <= i < k ==> is_whitespace(#[trigger] s[i]),
        k == s.len() || !is_whitespace(s[k]),
    ensures
        trim_start(s) == s.skip(k),
    decreases k,
{
    if k == 0 {
        assert(s.skip(0) =~= s);
    } else {
        let t = s.drop_first();
        assert(is_whitespace(s[0]));
        assert forall|i: int| 0 <= i < k - 1 implies is_whitespace(#[trigger] t[i]) by {
            assert(t[i] == s[i + 1]);
        }
        lemma_trim_start_at(t, k - 1);
        assert(t.skip(k - 1) =~= s.skip(k));
    }
}

/// The first white space of a sequence stands at `k` where nothing before
/// `k` is white space and `k` is the end or white space.
pub proof fn lemma_first_whitespace_at(s: Seq<char>, k: int)
    requires
        0 <= k <= s.len(),
        forall|i: int| 0 <= i < k ==> !is_whitespace(#[trigger] s[i]),
        k == s.len() || is_whitespace(s[k]),
    ensures
        first_whitespace(s) == k,
    decreases k,
{
    if k > 0 {
        let t = s.drop_first();
        assert(!is_whitespace(s[0]));
        assert forall|i: int| 0 <= i < k - 1 implies !is_whitespace(#[trigger] t[i]) by {
            assert(t[i] == s[i + 1]);
        }
        lemma_first_whitespace_at(t, k - 1);
    }
}

/// Where the trailing white space of a sequence begins.
pub proof fn lemma_trim_end_cut(s: Seq<char>) -> (k: int)
    ensures
        0 <= k <= s.len(),
        trim_end(s) == s.take(k),
        forall|i: int| k <= i < s.len() ==> is_whitespace(#[trigger] s[i]),
        k == 0 || !is_whitespace(s[k - 1]),
    decreases s.len(),
{
    if s.len() > 0 && is_whitespace(s.last()) {
        let t = s.drop_last();
        let k = lemma_trim_end_cut(t);
        assert forall|i: int| k <= i < s.len() implies is_whitespace(#[trigger] s[i]) by {
            if i < t.len() {
                assert(t[i] == s[i]);
            }
        }
        assert(t.take(k) =~= s.take(k));
        if k > 0 {
            assert(t[k - 1] == s[k - 1]);
        }
        k
    } else {
        assert(s.take(s.len() as int) =~= s);
        s.len() as int
    }
}

/// Where the leading white space of a sequence ends.
pub proof fn lemma_trim_start_cut(s: Seq<char>) -> (k: int)
    ensures
        0 <= k <= s.len(),
        trim_start(s) == s.skip(k),
        forall|i: int| 0 <= i < k ==> is_whitespace(#[trigger] s[i]),
        k == s.len() || !is_whitespace(s[k]),
    decreases s.len(),
{
    if s.len() > 0 && is_whitespace(s[0]) {
        let t = s.drop_first();
        let k = lemma_trim_start_cut(t);
        assert forall|i: int| 0 <= i < k + 1 implies is_whitespace(#[trigger] s[i]) by {
            if i > 0 {
                assert(t[i - 1] == s[i]);
            }
        }
        assert(t.skip(k) =~= s.skip(k + 1));
        if k < t.len() {
            assert(t[k] == s[k + 1]);
        }
        k + 1
    } else {
        assert(s.skip(0) =~= s);
        0
    }
}

/// Behind a sequence that ends in no white space, a sequence is trimmed at
/// its end as it is alone.
pub proof fn lemma_trim_end_behind(head: Seq<char>, tail: Seq<char>)
    requires
        head.len() > 0,
        !is_whitespace(head.last()),
    ensures
        trim_end(head + tail) == head + trim_end(tail),
{
    let k = lemma_trim_end_cut(tail);
    let whole = head + tail;
    assert forall|i: int| head.len() + k <= i < whole.len() implies is_whitespace(
        #[trigger] whole[i],
    ) by {
        assert(whole[i] == tail[i - head.len()]);
    }
    if k == 0 {
        assert(whole[head.len() - 1] == head.last());
    } else {
        assert(whole[head.len() + k - 1] == tail[k - 1]);
    }
    lemma_trim_end_at(whole, head.len() + k);
    assert(whole.take(head.len() + k) =~= head + tail.take(k));
}

/// To trim a sequence at its end first changes nothing of what is left when
/// it is trimmed at both ends.
pub proof fn lemma_trim_of_trimmed_end(s: Seq<char>)
    ensures
        trim(trim_end(s)) == trim(s),
{
    let start = lemma_trim_start_cut(s);
    let end = lemma_trim_end_cut(s);
    let cut = s.take(end);
    let rest = s.skip(start);
    if start >= end {
        // nothing but white space
        assert forall|i: int| 0 <= i < cut.len() implies is_whitespace(#[trigger] cut[i]) by {
            assert(cut[i] == s[i]);
        }
        lemma_trim_start_at(cut, cut.len() as int);
        assert(cut.skip(cut.len() as int) =~= Seq::<char>::empty());
        assert forall|i: int| 0 <= i < rest.len() implies is_whitespace(#[trigger] rest[i]) by {
            assert(rest[i] == s[start + i]);
        }
        lemma_trim_end_at(rest, 0);
        assert(rest.take(0) =~= Seq::<char>::empty());
    } else {
        let middle = s.subrange(start, end);
        assert forall|i: int| 0 <= i < start implies is_whitespace(#[trigger] cut[i]) by {
            assert(cut[i] == s[i]);
        }
        assert(cut[start] == s[start]);
        lemma_trim_start_at(cut, start);
        assert(cut.skip(start) =~= middle);
        assert(middle[middle.len() - 1] == s[end - 1]);
        lemma_trim_end_at(middle, middle.len() as int);
        assert(middle.take(middle.len() as int) =~= middle);
        assert forall|i: int| end - start <= i < rest.len() implies is_whitespace(
            #[trigger] rest[i],
        ) by {
            assert(rest[i] == s[start + i]);
        }
        assert(rest[end - start - 1] == s[end - 1]);
        lemma_trim_end_at(rest, end - start);
        assert(rest.take(end - start) =~= middle);
    }
}

/// Whether `c` is white space: whether it has the Unicode property
/// `White_Space`.
pub fn is_white(c: char) -> (white: bool)
    ensures
        white == is_whitespace(c),
{
    ('\u{9}' <= c && c <= '\u{d}') || c == ' ' || c == '\u{85}' || c == '\u{a0}' || c
        == '\u{1680}' || ('\u{2000}' <= c && c <= '\u{200a}') || c == '\u{2028}' || c
        == '\u{2029}' || c == '\u{202f}' || c == '\u{205f}' || c == '\u{3000}'
}

/// The characters of `s`.
pub fn chars_of(s: &str) -> (chars: Vec<char>)
    ensures
        chars@ == s@,
{
    let mut chars: Vec<char> = Vec::new();
    for c in it: s.chars()
        invariant
            chars@ == it.seq().take(it.index() as int),
    {
        chars.push(c);
    }
    chars
}

/// The end of `chars[from..to]` once its trailing white space is cut.
pub fn trim_end_index(chars: &Vec<char>, from: usize, to: usize) -> (end: usize)
    requires
        from <= to <= chars.len(),
    ensures
        from <= end <= to,
        chars@.subrange(from as int, end as int) == trim_end(
            chars@.subrange(from as int, to as int),
        ),
{
    let mut end: usize = to;
    while end > from && is_white(chars[end - 1])
        invariant
            from <= end <= to <= chars.len(),
            forall|i: int| end <= i < to ==> is_whitespace(#[trigger] chars@[i]),
        decreases end,
    {
        end = end - 1;
    }
    proof {
        let s = chars@.subrange(from as int, to as int);
        assert forall|i: int| end - from <= i < s.len() implies is_whitespace(#[trigger] s[i]) by {
            assert(s[i] == chars@[from + i]);
        }
        lemma_trim_end_at(s, end - from);
        assert(s.take(end - from) =~= chars@.subrange(from as int, end as int));
    }
    end
}

/// The start of `chars[from..to]` once its leading white space is cut.
pub fn trim_start_index(chars: &Vec<char>, from: usize, to: usize) -> (start: usize)
    requires
        from <= to <= chars.len(),
    ensures
        from <= start <= to,
        chars@.subrange(start as int, to as int) == trim_start(
            chars@.subrange(from as int, to as int),
        ),
{
    let mut start: usize = from;
    while start < to && is_white(chars[start])
        invariant
            from <= start <= to <= chars.len(),
            forall|i: int| from <= i < start ==> is_whitespace(#[trigger] chars@[i]),
        decreases to - start,
    {
        start = start + 1;
    }
    proof {
        let s = chars@.subrange(from as int, to as int);
        assert forall|i: int| 0 <= i < start - from implies is_whitespace(#[trigger] s[i]) by {
            assert(s[i] == chars@[from + i]);
        }
        lemma_trim_start_at(s, start - from);
        assert(s.skip(start - from) =~= chars@.subrange(start as int, to as int));
    }
    start
}

/// The place of the first white space in `chars[from..to]`, or `to`.
pub fn find_whitespace(chars: &Vec<char>, from: usize, to: usize) -> (at: usize)
    requires
        from <= to <= chars.len(),
    ensures
        from <= at <= to,
        at - from == first_whitespace(chars@.subrange(from as int, to as int)),
{
    let mut at: usize = from;
    while at < to && !is_white(chars[at])
        invariant
            from <= at <= to <= chars.len(),
            forall|i: int| from <= i < at ==> !is_whitespace(#[trigger] chars@[i]),
        decreases to - at,
    {
        at = at + 1;
    }
    proof {
        let s = chars@.subrange(from as int, to as int);
        assert forall|i: int| 0 <= i < at - from implies !is_whitespace(#[trigger] s[i]) by {
            assert(s[i] == chars@[from + i]);
        }
        lemma_first_whitespace_at(s, at - from);
    }
    at
}

/// Whether `chars[from..to]` spells `word`.
pub fn spells(chars: &Vec<char>, from: usize, to: usize, word: &str) -> (b: bool)
    requires
        from <= to <= chars.len(),
    ensures
        b == (chars@.subrange(from as int, to as int) == word@),
{
    let letters = chars_of(word);
    if letters.len() != to - from {
        return false;
    }
    let mut i: usize = 0;
    while i < letters.len()
        invariant
            from <= to <= chars.len(),
            letters@ == word@,
            letters.len() == to - from,
            i <= letters.len(),
            forall|j: int| 0 <= j < i ==> chars@[from + j] == letters@[j],
        decreases letters.len() - i,
    {
        if chars[from + i] != letters[i] {
            proof {
                let part = chars@.subrange(from as int, to as int);
                assert(part[i as int] == chars@[from + i]);
                assert(part[i as int] != word@[i as int]);
            }
            return false;
        }
        i = i + 1;
    }
    proof {
        assert(chars@.subrange(from as int, to as int) =~= word@);
    }
    true
}

/// The digit `d` as text.
fn digit_word(d: usize) -> (word: &'static str)
    requires
        d < 10,
    ensures
        word@ == seq![digit(d as nat)],
{
    proof {
        reveal_strlit("0");
        reveal_strlit("1");
        reveal_strlit("2");
        reveal_strlit("3");
        reveal_strlit("4");
        reveal_strlit("5");
        reveal_strlit("6");
        reveal_strlit("7");
        reveal_strlit("8");
        reveal_strlit("9");
    }
    let word = if d == 0 {
        "0"
    } else if d == 1 {
        "1"
    } else if d == 2 {
        "2"
    } else if d == 3 {
        "3"
    } else if d == 4 {
        "4"
    } else if d == 5 {
        "5"
    } else if d == 6 {
        "6"
    } else if d == 7 {
        "7"
    } else if d == 8 {
        "8"
    } else {
        "9"
    };
    proof {
        assert(word@ =~= seq![digit(d as nat)]);
    }
    word
}

/// The number `n` in decimal digits.
pub fn to_decimal(n: usize) -> (digits: String)
    ensures
        digits@ == decimal(n as nat),
    decreases n,
{
    if n < 10 {
        String::from_str(digit_word(n))
    } else {
        let digits = to_decimal(n / 10).concat(digit_word(n % 10));
        proof {
            assert(digits@ =~= decimal((n / 10) as nat).push(digit((n % 10) as nat)));
        }
        digits
    }
}

/// A copy of `text`.
pub fn copy_string(text: &String) -> (copy: String)
    ensures
        copy@ == text@,
{
    text.clone()
}

/// A copy of `texts`.
pub fn copy_strings(texts: &Vec<String>) -> (copy: Vec<String>)
    ensures
        copy.deep_view() == texts.deep_view(),
{
    let mut copy: Vec<String> = Vec::new();
    let mut i: usize = 0;
    while i < texts.len()
        invariant
            i <= texts.len(),
            copy.len() == i,
            forall|j: int| 0 <= j < i ==> copy@[j]@ == texts@[j]@,
        decreases texts.len() - i,
    {
        copy.push(texts[i].clone());
        i = i + 1;
    }
    proof {
        assert(copy.deep_view() =~= texts.deep_view());
    }
    copy
}

} // verus!
