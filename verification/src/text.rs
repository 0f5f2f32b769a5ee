//! Text primitives over `Seq<char>`: comparison, ASCII case folding, decimal
//! numerals, trimming and splitting.

use vstd::prelude::*;
use vstd::std_specs::iter::IteratorSpec;
use vstd::string::StringExecFns;
use vstd::string::StrSliceExecFns;

verus! {

/// The ASCII lower-case form of one character; every other character is itself.
pub open spec fn ascii_lower(c: char) -> char {
    if 'A' <= c && c <= 'Z' {
        ((c as u8 + 32) as u8) as char
    } else {
        c
    }
}

/// A text with each ASCII capital replaced by its small letter.
pub open spec fn lowercase(s: Seq<char>) -> Seq<char> {
    Seq::new(s.len(), |i: int| ascii_lower(s[i]))
}

/// Folds one character to ASCII lower case.
pub fn lower_char(c: char) -> (low: char)
    ensures
        low == ascii_lower(c),
{
    if 'A' <= c && c <= 'Z' {
        let code: u8 = c as u8;
        (code + 32) as char
    } else {
        c
    }
}

/// Whether two texts hold the same characters.
pub fn same_text(a: &str, b: &str) -> (same: bool)
    ensures
        same == (a@ == b@),
{
    let mut left = a.chars();
    let mut right = b.chars();
    let ghost mut done: int = 0;
    loop
        invariant
            0 <= done <= a@.len(),
            done <= b@.len(),
            left.remaining() == a@.skip(done),
            right.remaining() == b@.skip(done),
            a@.take(done) == b@.take(done),
            left.obeys_prophetic_iter_laws(),
            right.obeys_prophetic_iter_laws(),
        decreases a@.len() - done,
    {
        let x = left.next();
        let y = right.next();
        match (x, y) {
            (None, None) => {
                assert(a@ == a@.take(done));
                assert(b@ == b@.take(done));
                return true;
            },
            (Some(p), Some(q)) => {
                if p != q {
                    assert(a@[done] != b@[done]);
                    return false;
                }
                proof {
                    assert(a@.take(done + 1) == a@.take(done).push(a@[done]));
                    assert(b@.take(done + 1) == b@.take(done).push(b@[done]));
                    assert(a@.skip(done).drop_first() == a@.skip(done + 1));
                    assert(b@.skip(done).drop_first() == b@.skip(done + 1));
                    done = done + 1;
                }
            },
            _ => {
                return false;
            },
        }
    }
}

/// Whether `name`, folded to ASCII lower case, is exactly `folded`.
pub fn lowercase_is(name: &str, folded: &str) -> (same: bool)
    ensures
        same == (lowercase(name@) == folded@),
{
    let mut left = name.chars();
    let mut right = folded.chars();
    let ghost mut done: int = 0;
    loop
        invariant
            0 <= done <= name@.len(),
            done <= folded@.len(),
            left.remaining() == name@.skip(done),
            right.remaining() == folded@.skip(done),
            lowercase(name@).take(done) == folded@.take(done),
            left.obeys_prophetic_iter_laws(),
            right.obeys_prophetic_iter_laws(),
        decreases name@.len() - done,
    {
        let x = left.next();
        let y = right.next();
        match (x, y) {
            (None, None) => {
                assert(lowercase(name@) == lowercase(name@).take(done));
                assert(folded@ == folded@.take(done));
                return true;
            },
            (Some(p), Some(q)) => {
                if lower_char(p) != q {
                    assert(lowercase(name@)[done] != folded@[done]);
                    return false;
                }
                proof {
                    assert(lowercase(name@).take(done + 1) == lowercase(name@).take(done).push(
                        lowercase(name@)[done],
                    ));
                    assert(folded@.take(done + 1) == folded@.take(done).push(folded@[done]));
                    assert(name@.skip(done).drop_first() == name@.skip(done + 1));
                    assert(folded@.skip(done).drop_first() == folded@.skip(done + 1));
                    done = done + 1;
                }
            },
            _ => {
                assert(lowercase(name@).len() != folded@.len());
                return false;
            },
        }
    }
}

/// The character of one decimal digit.
pub open spec fn digit_char(d: int) -> char {
    ((48 + d) as u8) as char
}

/// The decimal numeral of a natural number, without leading zeros.
pub open spec fn digits(n: nat) -> Seq<char>
    decreases n,
{
    if n < 10 {
        seq![digit_char(n as int)]
    } else {
        digits(n / 10).push(digit_char((n % 10) as int))
    }
}

/// The decimal numeral of an integer: a minus sign for a negative one, then
/// the digits of its magnitude.
pub open spec fn decimal(v: int) -> Seq<char> {
    if v < 0 {
        seq!['-'] + digits((-v) as nat)
    } else {
        digits(v as nat)
    }
}

/// Digits that were peeled off least significant first, read back in
/// numeral order.
spec fn digits_reversed(stack: Seq<u8>) -> Seq<char> {
    Seq::new(stack.len(), |i: int| digit_char(stack[stack.len() - 1 - i] as int))
}

fn digit_text(d: u8) -> (t: &'static str)
    requires
        d < 10,
    ensures
        t@ == seq![digit_char(d as int)],
{
    proof {
        reveal_strlit("0");
        reveal_strlit("1");
        reveal_strlit("2");
        reveal_strlit("3");
        reveal_strlit("4");
        reveal_strlit("5");
        reveal_strlit("6");
        reveal_strlit("7");
        reveal_strlit("8");
        reveal_strlit("9");
    }
    let t = match d {
        0 => "0",
        1 => "1",
        2 => "2",
        3 => "3",
        4 => "4",
        5 => "5",
        6 => "6",
        7 => "7",
        8 => "8",
        _ => "9",
    };
    assert(t@ =~= seq![digit_char(d as int)]);
    t
}

/// Writes an integer as its decimal numeral.
pub fn decimal_text(v: i64) -> (t: String)
    ensures
        t@ == decimal(v as int),
{
    let magnitude: u64 = if v < 0 {
        ((-(v + 1)) as u64) + 1
    } else {
        v as u64
    };
    let mut rest: u64 = magnitude;
    let mut stack: Vec<u8> = Vec::new();
    while rest >= 10
        invariant
            digits(magnitude as nat) == digits(rest as nat) + digits_reversed(stack@),
            forall|k: int| 0 <= k < stack@.len() ==> stack@[k] < 10,
        decreases rest,
    {
        let d: u8 = (rest % 10) as u8;
        proof {
            let grown = stack@.push(d);
            assert(digits_reversed(grown) =~= seq![digit_char(d as int)] + digits_reversed(
                stack@,
            ));
            assert(digits(rest as nat) == digits((rest / 10) as nat).push(digit_char(d as int)));
            assert(digits((rest / 10) as nat).push(digit_char(d as int)) + digits_reversed(stack@)
                =~= digits((rest / 10) as nat) + digits_reversed(grown));
        }
        stack.push(d);
        rest = rest / 10;
    }
    let mut t = String::new();
    if v < 0 {
        proof {
            reveal_strlit("-");
        }
        t.append("-");
    }
    let ghost sign: Seq<char> = t@;
    assert(sign =~= if v < 0 { seq!['-'] } else { Seq::<char>::empty() });
    t.append(digit_text(rest as u8));
    let mut i: usize = stack.len();
    while i > 0
        invariant
            i <= stack@.len(),
            rest < 10,
            forall|k: int| 0 <= k < stack@.len() ==> stack@[k] < 10,
            t@ == sign + digits(rest as nat) + digits_reversed(stack@).take(stack@.len() - i),
        decreases i,
    {
        i = i - 1;
        t.append(digit_text(stack[i]));
        proof {
            let r = digits_reversed(stack@);
            let n = stack@.len() - i;
            assert(r.take(n) =~= r.take(n - 1).push(r[n - 1]));
            assert(r[n - 1] == digit_char(stack@[i as int] as int));
            assert(t@ =~= sign + digits(rest as nat) + r.take(n));
        }
    }
    proof {
        let r = digits_reversed(stack@);
        assert(r.take(stack@.len() as int) =~= r);
        assert(t@ =~= sign + (digits(rest as nat) + r));
        assert(decimal(v as int) =~= sign + digits(magnitude as nat));
    }
    t
}

/// The characters of a text, in order.
pub fn chars_of(s: &str) -> (v: Vec<char>)
    ensures
        v@ == s@,
{
    let mut v: Vec<char> = Vec::new();
    for c in it: s.chars()
        invariant
            v@ == s@.take(it.index()),
            it.seq() == s@,
    {
        proof {
            assert(s@.take(it.index() + 1) =~= s@.take(it.index()).push(c));
        }
        v.push(c);
    }
    proof {
        assert(s@.take(s@.len() as int) =~= s@);
    }
    v
}

/// Whether a character is one of the ten decimal digits.
pub open spec fn is_digit(c: char) -> bool {
    '0' <= c && c <= '9'
}

/// The value of a numeral made of decimal digits only.
pub open spec fn numeral_value(s: Seq<char>) -> nat
    decreases s.len(),
{
    if s.len() == 0 {
        0
    } else {
        (numeral_value(s.drop_last()) * 10 + (s.last() as int - 48)) as nat
    }
}

/// Whether a text is a non-empty run of decimal digits.
pub open spec fn is_numeral(s: Seq<char>) -> bool {
    s.len() > 0 && forall|i: int| 0 <= i < s.len() ==> is_digit(#[trigger] s[i])
}

/// The integer that a text denotes: an optional `+` or `-`, then at least one
/// decimal digit and nothing else.
pub open spec fn integer_of(s: Seq<char>) -> Option<int> {
    if s.len() > 0 && s[0] == '-' {
        if is_numeral(s.drop_first()) {
            Some(-(numeral_value(s.drop_first()) as int))
        } else {
            None
        }
    } else if s.len() > 0 && s[0] == '+' {
        if is_numeral(s.drop_first()) {
            Some(numeral_value(s.drop_first()) as int)
        } else {
            None
        }
    } else if is_numeral(s) {
        Some(numeral_value(s) as int)
    } else {
        None
    }
}

/// The 32-bit integer that a text denotes, if it denotes one in range.
pub open spec fn i32_of(s: Seq<char>) -> Option<i32> {
    match integer_of(s) {
        Some(v) => if i32::MIN <= v && v <= i32::MAX {
            Some(v as i32)
        } else {
            None
        },
        None => None,
    }
}

proof fn lemma_digits_read_back(n: nat)
    ensures
        is_numeral(digits(n)),
        numeral_value(digits(n)) == n,
        is_digit(digits(n)[0]),
    decreases n,
{
    if n < 10 {
        let s = digits(n);
        assert(s.len() == 1 && s[0] == digit_char(n as int));
        assert(s.drop_last() =~= Seq::<char>::empty());
        assert(numeral_value(s.drop_last()) == 0);
    } else {
        lemma_digits_read_back(n / 10);
        let s = digits(n);
        assert(s.drop_last() =~= digits(n / 10));
        assert(s.last() == digit_char((n % 10) as int));
        assert(s[0] == digits(n / 10)[0]);
        assert forall|i: int| 0 <= i < s.len() implies is_digit(#[trigger] s[i]) by {
            if i < s.len() - 1 {
                assert(s[i] == digits(n / 10)[i]);
            }
        }
    }
}

/// The numeral written for an integer reads back as that integer.
pub proof fn numeral_reads_back(v: int)
    ensures
        integer_of(decimal(v)) == Some(v),
        i32::MIN <= v <= i32::MAX ==> i32_of(decimal(v)) == Some(v as i32),
{
    if v < 0 {
        lemma_digits_read_back((-v) as nat);
        assert(decimal(v).drop_first() =~= digits((-v) as nat));
        assert(decimal(v)[0] == '-');
    } else {
        lemma_digits_read_back(v as nat);
        assert(decimal(v) == digits(v as nat));
    }
}

/// Reads a 32-bit integer from its decimal text.
pub fn parse_i32(s: &str) -> (r: Option<i32>)
    ensures
        r == i32_of(s@),
{
    let chars = chars_of(s);
    let n = chars.len();
    if n == 0 {
        return None;
    }
    let negative = chars[0] == '-';
    let start: usize = if chars[0] == '-' || chars[0] == '+' {
        1
    } else {
        0
    };
    let ghost body: Seq<char> = if start == 1 {
        s@.drop_first()
    } else {
        s@
    };
    assert(body =~= s@.skip(start as int));
    if start == n {
        return None;
    }
    let mut value: i64 = 0;
    let mut i: usize = start;
    while i < n
        invariant
            start <= i <= n,
            n == chars@.len(),
            chars@ == s@,
            s@.len() > 0,
            body == s@.skip(start as int),
            start == 1 ==> body == s@.drop_first(),
            start == 0 ==> body == s@,
            (start == 1) == (s@[0] == '-' || s@[0] == '+'),
            forall|k: int| 0 <= k < i - start ==> is_digit(#[trigger] body[k]),
            0 <= value <= 0x1_0000_0000,
            value < 0x1_0000_0000 ==> value == numeral_value(body.take(i - start)),
            value == 0x1_0000_0000 ==> numeral_value(body.take(i - start)) >= 0x1_0000_0000,
        decreases n - i,
    {
        let c = chars[i];
        if !('0' <= c && c <= '9') {
            assert(!is_digit(body[i - start]));
            return None;
        }
        assert(is_digit(body[i - start]));
        let d: i64 = (c as u8 - 48) as i64;
        proof {
            let k = i - start;
            let upto = body.take(k + 1);
            assert(upto.drop_last() =~= body.take(k));
            assert(upto.last() == c);
            assert(numeral_value(upto) == numeral_value(body.take(k)) * 10 + d);
        }
        if value < 0x1_0000_0000 {
            value = value * 10 + d;
            if value > 0x1_0000_0000 {
                value = 0x1_0000_0000;
            }
        }
        i = i + 1;
    }
    proof {
        assert(body.take(n - start) =~= body);
        assert(is_numeral(body));
    }
    if negative {
        if value <= 0x8000_0000 {
            Some((-value) as i32)
        } else {
            None
        }
    } else {
        if value <= 0x7fff_ffff {
            Some(value as i32)
        } else {
            None
        }
    }
}

/// Whether a character is white space in the sense of Unicode's `White_Space`
/// property.
pub open spec fn is_space(c: char) -> bool {
    let u = c as u32;
    (0x9 <= u && u <= 0xd) || u == 0x20 || u == 0x85 || u == 0xa0 || u == 0x1680 || (0x2000 <= u
        && u <= 0x200a) || u == 0x2028 || u == 0x2029 || u == 0x202f || u == 0x205f || u == 0x3000
}

/// A text without its leading white space.
pub open spec fn trim_start(s: Seq<char>) -> Seq<char>
    decreases s.len(),
{
    if s.len() > 0 && is_space(s[0]) {
        trim_start(s.drop_first())
    } else {
        s
    }
}

/// A text without its trailing white space.
pub open spec fn trim_end(s: Seq<char>) -> Seq<char>
    decreases s.len(),
{
    if s.len() > 0 && is_space(s.last()) {
        trim_end(s.drop_last())
    } else {
        s
    }
}

/// A text without the white space at either end.
pub open spec fn trimmed(s: Seq<char>) -> Seq<char> {
    trim_end(trim_start(s))
}

/// The pieces of a text between occurrences of `sep`: one more piece than
/// there are separators, so the empty text has one empty piece.
pub open spec fn split(s: Seq<char>, sep: char) -> Seq<Seq<char>>
    decreases s.len(),
{
    if s.len() == 0 {
        seq![Seq::<char>::empty()]
    } else {
        let before = split(s.drop_last(), sep);
        if s.last() == sep {
            before.push(Seq::<char>::empty())
        } else {
            before.drop_last().push(before.last().push(s.last()))
        }
    }
}

/// The texts that a vector of strings holds.
pub open spec fn texts(v: Seq<String>) -> Seq<Seq<char>> {
    Seq::new(v.len(), |i: int| v[i]@)
}

/// Tests a character for Unicode white space.
pub fn is_space_char(c: char) -> (b: bool)
    ensures
        b == is_space(c),
{
    let u: u32 = c as u32;
    (0x9 <= u && u <= 0xd) || u == 0x20 || u == 0x85 || u == 0xa0 || u == 0x1680 || (0x2000 <= u
        && u <= 0x200a) || u == 0x2028 || u == 0x2029 || u == 0x202f || u == 0x205f || u == 0x3000
}

/// Removes the white space at both ends of a text.
pub fn trim(s: &str) -> (t: String)
    ensures
        t@ == trimmed(s@),
{
    let chars = chars_of(s);
    let n = chars.len();
    let mut from: usize = 0;
    assert(s@.skip(0) =~= s@);
    while from < n && is_space_char(chars[from])
        invariant
            from <= n,
            n == chars@.len(),
            chars@ == s@,
            trim_start(s@) == trim_start(s@.skip(from as int)),
        decreases n - from,
    {
        proof {
            assert(s@.skip(from as int).drop_first() =~= s@.skip(from + 1));
        }
        from = from + 1;
    }
    let mut to: usize = n;
    assert(s@.skip(from as int) =~= s@.subrange(from as int, n as int));
    while to > from && is_space_char(chars[to - 1])
        invariant
            from <= to <= n,
            n == chars@.len(),
            chars@ == s@,
            trimmed(s@) == trim_end(s@.subrange(from as int, to as int)),
        decreases to,
    {
        proof {
            assert(s@.subrange(from as int, to as int).drop_last() =~= s@.subrange(
                from as int,
                to - 1,
            ));
        }
        to = to - 1;
    }
    s.substring_char(from, to).to_owned()
}

/// Cuts a text at every occurrence of `sep`.
pub fn split_on(s: &str, sep: char) -> (pieces: Vec<String>)
    ensures
        texts(pieces@) == split(s@, sep),
{
    let chars = chars_of(s);
    let n = chars.len();
    let mut pieces: Vec<String> = Vec::new();
    let mut begin: usize = 0;
    let mut i: usize = 0;
    proof {
        assert(s@.take(0).len() == 0);
        assert(s@.subrange(0, 0) =~= Seq::<char>::empty());
        assert(texts(pieces@).push(s@.subrange(0, 0)) =~= seq![Seq::<char>::empty()]);
    }
    while i < n
        invariant
            begin <= i <= n,
            n == chars@.len(),
            chars@ == s@,
            split(s@.take(i as int), sep) == texts(pieces@).push(
                s@.subrange(begin as int, i as int),
            ),
        decreases n - i,
    {
        proof {
            let upto = s@.take(i + 1);
            assert(upto.drop_last() =~= s@.take(i as int));
            assert(upto.last() == s@[i as int]);
        }
        if chars[i] == sep {
            let piece = s.substring_char(begin, i).to_owned();
            proof {
                assert(texts(pieces@.push(piece)) =~= texts(pieces@).push(piece@));
                assert(s@.subrange(i + 1, i + 1) =~= Seq::<char>::empty());
            }
            pieces.push(piece);
            begin = i + 1;
        } else {
            proof {
                let before = texts(pieces@).push(s@.subrange(begin as int, i as int));
                assert(before.drop_last() =~= texts(pieces@));
                assert(s@.subrange(begin as int, i as int).push(s@[i as int]) =~= s@.subrange(
                    begin as int,
                    i + 1,
                ));
            }
        }
        i = i + 1;
    }
    let piece = s.substring_char(begin, n).to_owned();
    proof {
        assert(s@.take(n as int) =~= s@);
        assert(texts(pieces@.push(piece)) =~= texts(pieces@).push(piece@));
    }
    pieces.push(piece);
    pieces
}

} // verus!
