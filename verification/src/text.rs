//! Text primitives: characters in and out of strings, decimal numerals,
//! ASCII case folding and code-point order.
use vstd::prelude::*;

verus! {

/// `String::push` appends one character.
pub assume_specification[ String::push ](buffer: &mut String, c: char)
    ensures
        final(buffer)@ == old(buffer)@.push(c),
;

/// The characters of `text`, in order.
pub fn chars_of(text: &str) -> (chars: Vec<char>)
    ensures
        chars@ == text@,
{
    let mut chars: Vec<char> = Vec::new();
    for c in it: text.chars()
        invariant
            it.seq() == text@,
            chars@ == text@.take(it.index() as int),
    {
        assert(text@.take(it.index() + 1) =~= text@.take(it.index() as int).push(c));
        chars.push(c);
    }
    assert(text@.take(text@.len() as int) =~= text@);
    chars
}

/// Appends the characters `from..to` of `chars` to `out`.
pub fn push_range(out: &mut String, chars: &Vec<char>, from: usize, to: usize)
    requires
        from <= to <= chars@.len(),
    ensures
        final(out)@ == old(out)@ + chars@.subrange(from as int, to as int),
{
    let mut i: usize = from;
    assert(chars@.subrange(from as int, from as int) =~= Seq::<char>::empty());
    while i < to
        invariant
            from <= i <= to <= chars@.len(),
            out@ == old(out)@ + chars@.subrange(from as int, i as int),
        decreases to - i,
    {
        out.push(chars[i]);
        proof {
            assert(chars@.subrange(from as int, i + 1) =~= chars@.subrange(from as int, i as int).push(
                chars@[i as int],
            ));
        }
        i = i + 1;
    }
}

/// Appends `more` to `out`.
pub fn push_text(out: &mut String, more: &str)
    ensures
        final(out)@ == old(out)@ + more@,
{
    let chars = chars_of(more);
    push_range(out, &chars, 0, chars.len());
    assert(more@.subrange(0, more@.len() as int) =~= more@);
}

/// The characters of a slice of `chars` as an owned string.
pub fn string_of(chars: &Vec<char>, from: usize, to: usize) -> (text: String)
    requires
        from <= to <= chars@.len(),
    ensures
        text@ == chars@.subrange(from as int, to as int),
{
    let mut text = String::new();
    push_range(&mut text, chars, from, to);
    assert(text@ =~= chars@.subrange(from as int, to as int));
    text
}

/// Whether two texts hold the same characters.
pub fn same_text(a: &str, b: &str) -> (same: bool)
    ensures
        same == (a@ == b@),
{
    let x = chars_of(a);
    let y = chars_of(b);
    if x.len() != y.len() {
        return false;
    }
    let mut i: usize = 0;
    while i < x.len()
        invariant
            i <= x@.len(),
            x@.len() == y@.len(),
            x@ == a@,
            y@ == b@,
            forall|j: int| 0 <= j < i ==> x@[j] == y@[j],
        decreases x.len() - i,
    {
        if x[i] != y[i] {
            return false;
        }
        i = i + 1;
    }
    assert(x@ =~= y@);
    true
}

/// Whether a text holds a word.
pub open spec fn holds_word(t: Seq<char>, word: Seq<char>) -> bool {
    exists|i: int| 0 <= i <= t.len() - word.len() && #[trigger] t.subrange(i, i + word.len()) == word
}

// ---------------------------------------------------------------------------
// Decimal numerals
// ---------------------------------------------------------------------------

pub open spec fn is_digit(c: char) -> bool {
    '0' <= c <= '9'
}

pub open spec fn digit_value(c: char) -> nat {
    (c as nat - '0' as nat) as nat
}

/// The decimal digit for `d`, which is below ten.
pub open spec fn digit(d: nat) -> char {
    ('0' as nat + d) as char
}

/// The shortest decimal numeral for `n`.
pub open spec fn decimal(n: nat) -> Seq<char>
    decreases n,
{
    if n < 10 {
        seq![digit(n)]
    } else {
        decimal(n / 10).push(digit(n % 10))
    }
}

pub open spec fn all_digits(t: Seq<char>) -> bool {
    forall|i: int| 0 <= i < t.len() ==> is_digit(#[trigger] t[i])
}

/// The number a run of digits denotes, most significant first.
pub open spec fn digits_value(t: Seq<char>) -> nat
    decreases t.len(),
{
    if t.len() == 0 {
        0
    } else {
        digits_value(t.drop_last()) * 10 + digit_value(t.last())
    }
}

/// A numeral with the one leading `+` that the syntax tolerates removed.
pub open spec fn unsigned_part(t: Seq<char>) -> Seq<char> {
    if t.len() > 0 && t[0] == '+' {
        t.skip(1)
    } else {
        t
    }
}

/// The number that `t` denotes, if it is an unsigned decimal numeral that
/// fits 64 bits: an optional `+`, then at least one digit and nothing else.
pub open spec fn numeral(t: Seq<char>) -> Option<u64> {
    let d = unsigned_part(t);
    if d.len() > 0 && all_digits(d) && digits_value(d) <= u64::MAX {
        Some(digits_value(d) as u64)
    } else {
        None
    }
}

/// Every numeral that [`decimal`] writes reads back as the same number.
pub proof fn numeral_reads_decimal(n: u64)
    ensures
        numeral(decimal(n as nat)) == Some(n),
        decimal(n as nat).len() > 0,
        all_digits(decimal(n as nat)),
{
    decimal_digits(n as nat);
}

proof fn decimal_digits(n: nat)
    ensures
        decimal(n).len() > 0,
        all_digits(decimal(n)),
        digits_value(decimal(n)) == n,
        decimal(n)[0] != '+',
    decreases n,
{
    let d = decimal(n);
    if n < 10 {
        assert(d.drop_last() =~= Seq::<char>::empty());
        assert(digits_value(d.drop_last()) == 0);
        assert(digit_value(digit(n)) == n);
    } else {
        decimal_digits(n / 10);
        assert(d.drop_last() =~= decimal(n / 10));
        assert(digit_value(digit(n % 10)) == n % 10);
        assert(d[0] == decimal(n / 10)[0]);
    }
}

proof fn digits_value_grows(t: Seq<char>, i: int)
    requires
        0 <= i <= t.len(),
    ensures
        digits_value(t.take(i)) <= digits_value(t),
    decreases t.len(),
{
    if i == t.len() {
        assert(t.take(i) =~= t);
    } else {
        digits_value_grows(t.drop_last(), i);
        assert(t.drop_last().take(i) =~= t.take(i));
    }
}

/// Appends the decimal numeral of `n` to `out`.
pub fn push_decimal(out: &mut String, n: u64)
    ensures
        final(out)@ == old(out)@ + decimal(n as nat),
    decreases n,
{
    if n >= 10 {
        push_decimal(out, n / 10);
    }
    let c: char = digit_char(n % 10);
    let ghost before = out@;
    out.push(c);
    assert(out@ =~= old(out)@ + decimal(n as nat));
}

fn digit_char(d: u64) -> (c: char)
    requires
        d < 10,
    ensures
        c == digit(d as nat),
{
    (48u8 + d as u8) as char
}

/// Reads the characters `from..` of `chars` as an unsigned numeral.
pub fn parse_numeral(chars: &Vec<char>, from: usize) -> (number: Option<u64>)
    requires
        from <= chars@.len(),
    ensures
        number == numeral(chars@.skip(from as int)),
{
    let ghost t = chars@.skip(from as int);
    let ghost d = unsigned_part(t);
    let mut i: usize = from;
    if i < chars.len() && chars[i] == '+' {
        i = i + 1;
    }
    assert(d =~= chars@.skip(i as int));
    if i == chars.len() {
        return None;
    }
    let start: usize = i;
    let mut value: u64 = 0;
    assert(d.take(0) =~= Seq::<char>::empty());
    while i < chars.len()
        invariant
            start <= i <= chars@.len(),
            start < chars@.len(),
            t == chars@.skip(from as int),
            d == unsigned_part(t),
            d == chars@.skip(start as int),
            value == digits_value(d.take(i - start)),
            all_digits(d.take(i - start)),
        decreases chars.len() - i,
    {
        let c: char = chars[i];
        let ghost at = i - start;
        assert(d[at] == c);
        if !('0' <= c && c <= '9') {
            assert(!is_digit(d[at]));
            return None;
        }
        let v: u64 = (c as u32 - 48u32) as u64;
        proof {
            assert(d.take(at + 1).drop_last() =~= d.take(at));
            assert(d.take(at + 1).last() == c);
            digits_value_grows(d, at + 1);
            assert forall|j: int| 0 <= j < at + 1 implies is_digit(#[trigger] d.take(at + 1)[j]) by {
                if j < at {
                    assert(d.take(at)[j] == d[j]);
                }
            }
        }
        if value > (u64::MAX - v) / 10 {
            assert(digits_value(d.take(at + 1)) > u64::MAX);
            return None;
        }
        value = value * 10 + v;
        i = i + 1;
    }
    assert(d.take(d.len() as int) =~= d);
    Some(value)
}

// ---------------------------------------------------------------------------
// ASCII case folding
// ---------------------------------------------------------------------------

/// `c` with an ASCII capital replaced by its small letter.
pub open spec fn folded(c: char) -> char {
    if 'A' <= c <= 'Z' {
        (c as nat + 32) as char
    } else {
        c
    }
}

/// Whether two texts are equal once ASCII capitals are folded.
pub open spec fn same_folded(a: Seq<char>, b: Seq<char>) -> bool {
    a.len() == b.len() && forall|i: int| 0 <= i < a.len() ==> folded(#[trigger] a[i]) == folded(b[i])
}

fn fold_char(c: char) -> (r: char)
    ensures
        r == folded(c),
{
    if 'A' <= c && c <= 'Z' {
        ((c as u32 as u8) + 32u8) as char
    } else {
        c
    }
}

/// Whether the first `to` characters of `chars` spell `word`, ASCII case aside.
pub fn spells_folded(chars: &Vec<char>, to: usize, word: &str) -> (same: bool)
    requires
        to <= chars@.len(),
    ensures
        same == same_folded(chars@.take(to as int), word@),
{
    let w = chars_of(word);
    if w.len() != to {
        return false;
    }
    let mut i: usize = 0;
    while i < to
        invariant
            i <= to <= chars@.len(),
            w@ == word@,
            w@.len() == to,
            forall|j: int| 0 <= j < i ==> folded(#[trigger] chars@.take(to as int)[j]) == folded(w@[j]),
        decreases to - i,
    {
        let ghost prefix = chars@.take(to as int);
        assert(prefix[i as int] == chars@[i as int]);
        if fold_char(chars[i]) != fold_char(w[i]) {
            return false;
        }
        i = i + 1;
    }
    true
}

/// A digit behind a numeral makes it ten times as large, and adds itself; one
/// that is too large is no numeral. One leading plus sign is tolerated, and
/// nothing else but digits is.
pub proof fn numerals_grow_by_digits(t: Seq<char>, c: char, n: u64, i: int)
    ensures
        numeral(Seq::empty()) is None,
        numeral(seq!['+'] + decimal(n as nat)) == Some(n),
        0 < i < t.len() && !('0' <= t[i] <= '9') ==> numeral(t) is None,
        t.len() > 0 && !('0' <= t[0] <= '9') && t[0] != '+' ==> numeral(t) is None,
        numeral(t) == Some(n) && '0' <= c <= '9' ==> numeral(t.push(c)) == (if n * 10 + (c as int
            - '0' as int) <= u64::MAX {
            Some((n * 10 + (c as int - '0' as int)) as u64)
        } else {
            None
        }),
{
    let d = decimal(n as nat);
    decimal_digits(n as nat);
    assert((seq!['+'] + d).skip(1) =~= d);
    let u = unsigned_part(t);
    if 0 < i < t.len() && !is_digit(t[i]) {
        if t[0] == '+' {
            assert(u[i - 1] == t[i]);
        }
    }
    if t.len() > 0 && t[0] != '+' {
        assert(u[0] == t[0]);
    }
    if numeral(t) == Some(n) && '0' <= c <= '9' {
        assert(unsigned_part(t.push(c)) =~= u.push(c));
        assert(u.push(c).drop_last() =~= u);
        assert(all_digits(u.push(c)));
    }
}

} // verus!
