//! Text building blocks of the rule grammar: decimal integers, and lists
//! whose items are separated by one character.

use vstd::prelude::*;

verus! {

/// `String::push` appends one character to the end of the string.
pub assume_specification[ String::push ](s: &mut String, c: char)
    ensures
        final(s)@ == old(s)@.push(c),
;

/// The characters of a string slice, in order.
pub fn chars_of(s: &str) -> (r: Vec<char>)
    ensures
        r@ == s@,
{
    let mut chars: Vec<char> = Vec::new();
    for c in it: s.chars()
        invariant
            chars@ == it.seq().take(it.index()),
            it.seq() == s@,
    {
        chars.push(c);
    }
    chars
}

/// Whether `c` is one of the ten decimal digits.
pub open spec fn is_digit(c: char) -> bool {
    '0' <= c <= '9'
}

/// The value of a decimal digit.
pub open spec fn digit_value(c: char) -> int {
    c as u32 as int - 48
}

/// The digit that writes a value below ten.
pub open spec fn digit_char(d: int) -> char {
    if d == 0 {
        '0'
    } else if d == 1 {
        '1'
    } else if d == 2 {
        '2'
    } else if d == 3 {
        '3'
    } else if d == 4 {
        '4'
    } else if d == 5 {
        '5'
    } else if d == 6 {
        '6'
    } else if d == 7 {
        '7'
    } else if d == 8 {
        '8'
    } else {
        '9'
    }
}

/// Whether every character of `s` is a decimal digit.
pub open spec fn all_digits(s: Seq<char>) -> bool {
    forall|i: int| 0 <= i < s.len() ==> is_digit(#[trigger] s[i])
}

/// The number that a run of decimal digits writes; the empty run writes 0.
pub open spec fn decimal_value(s: Seq<char>) -> nat
    decreases s.len(),
{
    if s.len() == 0 {
        0
    } else {
        (decimal_value(s.drop_last()) * 10 + digit_value(s.last())) as nat
    }
}

/// The decimal digits of a natural number, without leading zeros.
pub open spec fn decimal_digits(n: nat) -> Seq<char>
    decreases n,
{
    if n < 10 {
        seq![digit_char(n as int)]
    } else {
        decimal_digits(n / 10).push(digit_char((n % 10) as int))
    }
}

/// The text of an integer: its decimal digits, after a minus sign where it is
/// negative.
pub open spec fn integer_text(v: int) -> Seq<char> {
    if v < 0 {
        seq!['-'] + decimal_digits((-v) as nat)
    } else {
        decimal_digits(v as nat)
    }
}

/// The integer that a text writes: one or more decimal digits, which a minus
/// sign may precede. `None` for any other text.
pub open spec fn integer_value(s: Seq<char>) -> Option<int> {
    if s.len() > 0 && s[0] == '-' {
        if s.len() > 1 && all_digits(s.skip(1)) {
            Some(-(decimal_value(s.skip(1)) as int))
        } else {
            None
        }
    } else if s.len() > 0 && all_digits(s) {
        Some(decimal_value(s) as int)
    } else {
        None
    }
}

/// The pieces into which the separator cuts a text. A text without the
/// separator is one piece; `n` separators make `n + 1` pieces, empty ones
/// included.
pub open spec fn split(s: Seq<char>, sep: char) -> Seq<Seq<char>>
    decreases s.len(),
{
    if s.len() == 0 {
        seq![Seq::empty()]
    } else {
        let before = split(s.drop_last(), sep);
        if s.last() == sep {
            before.push(Seq::empty())
        } else {
            before.drop_last().push(before.last().push(s.last()))
        }
    }
}

/// The pieces written one after the other with the separator between them.
pub open spec fn join(pieces: Seq<Seq<char>>, sep: char) -> Seq<char>
    decreases pieces.len(),
{
    if pieces.len() == 0 {
        Seq::empty()
    } else if pieces.len() == 1 {
        pieces[0]
    } else {
        join(pieces.drop_last(), sep) + seq![sep] + pieces.last()
    }
}

/// Whether the character occurs nowhere in the text.
pub open spec fn free_of(s: Seq<char>, c: char) -> bool {
    forall|i: int| 0 <= i < s.len() ==> #[trigger] s[i] != c
}

/// The position of the first occurrence of `c` in `s`, or the length of `s`
/// where it does not occur.
pub open spec fn index_of(s: Seq<char>, c: char) -> int
    decreases s.len(),
{
    if s.len() == 0 {
        0
    } else if s[0] == c {
        0
    } else {
        1 + index_of(s.skip(1), c)
    }
}

/// A position up to which `c` does not occur, and at which it does or the text
/// ends, is the position that `index_of` gives.
pub proof fn lemma_index_of(s: Seq<char>, c: char, i: int)
    requires
        0 <= i <= s.len(),
        free_of(s.take(i), c),
        i == s.len() || s[i] == c,
    ensures
        index_of(s, c) == i,
    decreases s.len(),
{
    if s.len() == 0 {
    } else if i == 0 {
    } else {
        assert(s.take(i)[0] == s[0]);
        let t = s.skip(1);
        assert forall|j: int| 0 <= j < t.take(i - 1).len() implies #[trigger] t.take(i - 1)[j]
            != c by {
            assert(s.take(i)[j + 1] == t.take(i - 1)[j]);
        }
        lemma_index_of(t, c, i - 1);
    }
}

/// The pieces of a text are never none, and none of them holds the separator.
pub proof fn lemma_split_pieces(s: Seq<char>, sep: char)
    ensures
        split(s, sep).len() >= 1,
        forall|k: int| 0 <= k < split(s, sep).len() ==> free_of(#[trigger] split(s, sep)[k], sep),
    decreases s.len(),
{
    if s.len() > 0 {
        lemma_split_pieces(s.drop_last(), sep);
    }
}

/// A text without the separator is its own single piece.
pub proof fn lemma_split_whole(s: Seq<char>, sep: char)
    requires
        free_of(s, sep),
    ensures
        split(s, sep) == seq![s],
    decreases s.len(),
{
    if s.len() > 0 {
        lemma_split_whole(s.drop_last(), sep);
        assert(s.drop_last().push(s.last()) == s);
        assert(seq![s.drop_last()].drop_last().push(s) == seq![s]);
    } else {
        assert(s == Seq::<char>::empty());
    }
}

/// Cutting a text that ends in a separator and a piece gives the pieces of
/// what stands before the separator, and then that piece.
pub proof fn lemma_split_append(s: Seq<char>, piece: Seq<char>, sep: char)
    requires
        free_of(piece, sep),
    ensures
        split(s + seq![sep] + piece, sep) == split(s, sep).push(piece),
    decreases piece.len(),
{
    let whole = s + seq![sep] + piece;
    if piece.len() == 0 {
        assert(whole.drop_last() == s);
        assert(piece == Seq::<char>::empty());
    } else {
        let shorter = piece.drop_last();
        lemma_split_append(s, shorter, sep);
        assert(whole.drop_last() == s + seq![sep] + shorter);
        assert(whole.last() == piece.last());
        assert(shorter.push(piece.last()) == piece);
        assert(split(s, sep).push(shorter).drop_last() == split(s, sep));
    }
}

/// Cutting what `join` wrote gives the pieces back, where there is at least
/// one piece and none holds the separator.
pub proof fn lemma_split_join(pieces: Seq<Seq<char>>, sep: char)
    requires
        pieces.len() >= 1,
        forall|k: int| 0 <= k < pieces.len() ==> free_of(#[trigger] pieces[k], sep),
    ensures
        split(join(pieces, sep), sep) == pieces,
    decreases pieces.len(),
{
    if pieces.len() == 1 {
        lemma_split_whole(pieces[0], sep);
        assert(seq![pieces[0]] == pieces);
    } else {
        lemma_split_join(pieces.drop_last(), sep);
        lemma_split_append(join(pieces.drop_last(), sep), pieces.last(), sep);
        assert(pieces.drop_last().push(pieces.last()) == pieces);
    }
}

/// The views of a list of texts.
pub open spec fn texts(pieces: Seq<Vec<char>>) -> Seq<Seq<char>> {
    pieces.map_values(|piece: Vec<char>| piece@)
}

/// Cuts a text at each occurrence of the separator.
pub fn split_text(s: &Vec<char>, sep: char) -> (r: Vec<Vec<char>>)
    ensures
        texts(r@) == split(s@, sep),
{
    let mut done: Vec<Vec<char>> = Vec::new();
    let mut piece: Vec<char> = Vec::new();
    let mut i: usize = 0;
    proof {
        assert(s@.take(0) == Seq::<char>::empty());
        assert(texts(done@).push(piece@) == seq![Seq::<char>::empty()]);
    }
    while i < s.len()
        invariant
            i <= s.len(),
            texts(done@).push(piece@) == split(s@.take(i as int), sep),
        decreases s.len() - i,
    {
        let c = s[i];
        proof {
            let prefix = s@.take(i + 1);
            assert(prefix.drop_last() == s@.take(i as int));
            assert(prefix.last() == c);
            assert(texts(done@).push(piece@).drop_last() == texts(done@));
        }
        if c == sep {
            proof {
                assert(texts(done@.push(piece)) == texts(done@).push(piece@));
            }
            done.push(piece);
            piece = Vec::new();
        } else {
            piece.push(c);
        }
        i += 1;
    }
    proof {
        assert(s@.take(i as int) == s@);
        assert(texts(done@.push(piece)) == texts(done@).push(piece@));
    }
    done.push(piece);
    done
}

/// The position of the first occurrence of `c` in `s`, or the length of `s`.
pub fn find_char(s: &Vec<char>, c: char) -> (r: usize)
    ensures
        r as int == index_of(s@, c),
        r <= s.len(),
{
    let mut i: usize = 0;
    while i < s.len() && s[i] != c
        invariant
            i <= s.len(),
            free_of(s@.take(i as int), c),
        decreases s.len() - i,
    {
        i += 1;
        assert forall|j: int| 0 <= j < s@.take(i as int).len() implies #[trigger] s@.take(
            i as int,
        )[j] != c by {
            if j < i - 1 {
                assert(s@.take(i - 1)[j] != c);
            }
        }
    }
    proof {
        lemma_index_of(s@, c, i as int);
    }
    i
}

/// The characters of `s` from position `from` up to, not including, `to`.
pub fn slice_of(s: &Vec<char>, from: usize, to: usize) -> (r: Vec<char>)
    requires
        from <= to <= s.len(),
    ensures
        r@ == s@.subrange(from as int, to as int),
{
    let mut out: Vec<char> = Vec::new();
    let mut i: usize = from;
    while i < to
        invariant
            from <= i <= to <= s.len(),
            out@ == s@.subrange(from as int, i as int),
        decreases to - i,
    {
        out.push(s[i]);
        i += 1;
    }
    out
}

/// Whether two texts hold the same characters.
pub fn same_text(a: &Vec<char>, b: &str) -> (r: bool)
    ensures
        r == (a@ == b@),
{
    let other = chars_of(b);
    if a.len() != other.len() {
        return false;
    }
    let mut i: usize = 0;
    while i < a.len()
        invariant
            i <= a.len(),
            a.len() == other.len(),
            other@ == b@,
            a@.take(i as int) == other@.take(i as int),
        decreases a.len() - i,
    {
        if a[i] != other[i] {
            return false;
        }
        i += 1;
        assert(a@.take(i as int) == a@.take(i - 1).push(a@[i - 1]));
        assert(other@.take(i as int) == other@.take(i - 1).push(other@[i - 1]));
    }
    assert(a@.take(i as int) == a@);
    assert(other@.take(i as int) == other@);
    true
}

/// The largest magnitude that `read_integer` tells apart: any integer beyond
/// it is reported as this bound, with its sign.
pub const INTEGER_CAP: i64 = 10_000_000_000;

/// `v` held to the interval from `-INTEGER_CAP` to `INTEGER_CAP`.
pub open spec fn capped(v: int) -> int {
    if v > INTEGER_CAP {
        INTEGER_CAP as int
    } else if v < -INTEGER_CAP {
        -INTEGER_CAP
    } else {
        v
    }
}

/// Reads the digits of `s` from position `from` on. `None` where one of them
/// is no digit; else their value, or `INTEGER_CAP` where the value is larger.
pub fn read_digits(s: &Vec<char>, from: usize) -> (r: Option<i64>)
    requires
        from <= s.len(),
    ensures
        r is Some <==> all_digits(s@.skip(from as int)),
        r matches Some(v) ==> v == capped(decimal_value(s@.skip(from as int)) as int),
{
    let ghost tail = s@.skip(from as int);
    let mut acc: i64 = 0;
    let mut i: usize = from;
    proof {
        assert(tail.take(0) == Seq::<char>::empty());
    }
    while i < s.len()
        invariant
            from <= i <= s.len(),
            tail == s@.skip(from as int),
            all_digits(tail.take(i - from)),
            acc == capped(decimal_value(tail.take(i - from)) as int),
            0 <= acc,
        decreases s.len() - i,
    {
        let c = s[i];
        assert(tail[i - from] == c);
        if !('0' <= c && c <= '9') {
            return None;
        }
        let d: i64 = (c as u32 - 48) as i64;
        proof {
            let next = tail.take(i + 1 - from);
            assert(next.drop_last() == tail.take(i - from));
            assert(next.last() == c);
            assert forall|j: int| 0 <= j < next.len() implies is_digit(#[trigger] next[j]) by {
                if j < next.len() - 1 {
                    assert(tail.take(i - from)[j] == next[j]);
                }
            }
        }
        acc = acc * 10 + d;
        if acc > INTEGER_CAP {
            acc = INTEGER_CAP;
        }
        i += 1;
    }
    proof {
        assert(tail.take(i - from) == tail);
    }
    Some(acc)
}

/// Reads an integer: one or more digits, which a minus sign may precede.
/// `None` for any other text; else the integer, held to `INTEGER_CAP` in
/// magnitude.
pub fn read_integer(s: &Vec<char>) -> (r: Option<i64>)
    ensures
        r is Some <==> integer_value(s@) is Some,
        r matches Some(v) ==> v == capped(integer_value(s@).unwrap()),
{
    if s.len() == 0 {
        return None;
    }
    if s[0] == '-' {
        if s.len() == 1 {
            return None;
        }
        match read_digits(s, 1) {
            Some(v) => Some(-v),
            None => None,
        }
    } else {
        assert(s@.skip(0) == s@);
        read_digits(s, 0)
    }
}

/// The digit that writes `d`.
fn digit_of(d: u8) -> (r: char)
    requires
        d < 10,
    ensures
        r == digit_char(d as int),
{
    match d {
        0 => '0',
        1 => '1',
        2 => '2',
        3 => '3',
        4 => '4',
        5 => '5',
        6 => '6',
        7 => '7',
        8 => '8',
        _ => '9',
    }
}

/// Appends the decimal digits of `n`.
pub fn push_decimal(out: &mut String, n: u64)
    ensures
        final(out)@ == old(out)@ + decimal_digits(n as nat),
    decreases n,
{
    if n >= 10 {
        push_decimal(out, n / 10);
    }
    out.push(digit_of((n % 10) as u8));
}

/// Appends the text of `v`.
pub fn push_integer(out: &mut String, v: i64)
    ensures
        final(out)@ == old(out)@ + integer_text(v as int),
{
    if v < 0 {
        out.push('-');
        let magnitude: u64 = if v == i64::MIN {
            9_223_372_036_854_775_808u64
        } else {
            (-v) as u64
        };
        push_decimal(out, magnitude);
    } else {
        push_decimal(out, v as u64);
    }
}

/// What `decimal_digits` writes is a non-empty run of digits whose value is
/// the number written, and it starts with no zero unless the number is below
/// ten.
pub proof fn lemma_decimal_digits(n: nat)
    ensures
        decimal_digits(n).len() >= 1,
        all_digits(decimal_digits(n)),
        decimal_value(decimal_digits(n)) == n,
    decreases n,
{
    if n < 10 {
        let s = decimal_digits(n);
        assert(s.drop_last() == Seq::<char>::empty());
        assert(decimal_value(s.drop_last()) == 0);
    } else {
        lemma_decimal_digits(n / 10);
        let s = decimal_digits(n);
        assert(s.drop_last() == decimal_digits(n / 10));
        assert forall|i: int| 0 <= i < s.len() implies is_digit(#[trigger] s[i]) by {
            if i < s.len() - 1 {
                assert(s[i] == decimal_digits(n / 10)[i]);
            }
        }
    }
}

/// Reading the text of an integer gives the integer.
pub proof fn lemma_integer_text(v: int)
    ensures
        integer_value(integer_text(v)) == Some(v),
        integer_text(v).len() >= 1,
        forall|i: int|
            0 <= i < integer_text(v).len() ==> is_digit(#[trigger] integer_text(v)[i])
                || integer_text(v)[i] == '-',
{
    let s = integer_text(v);
    if v < 0 {
        lemma_decimal_digits((-v) as nat);
        assert(s.skip(1) == decimal_digits((-v) as nat));
        assert forall|i: int| 0 <= i < s.len() implies is_digit(#[trigger] s[i]) || s[i]
            == '-' by {
            if i > 0 {
                assert(s[i] == decimal_digits((-v) as nat)[i - 1]);
            }
        }
    } else {
        lemma_decimal_digits(v as nat);
        assert(is_digit(s[0]));
    }
}

/// Ten to the power of `n`.
pub open spec fn power_of_ten(n: nat) -> nat
    decreases n,
{
    if n == 0 {
        1
    } else {
        10 * power_of_ten((n - 1) as nat)
    }
}

/// A run of `n` digits writes a number below ten to the power of `n`.
pub proof fn lemma_decimal_bound(s: Seq<char>)
    requires
        all_digits(s),
    ensures
        decimal_value(s) < power_of_ten(s.len()),
    decreases s.len(),
{
    if s.len() > 0 {
        assert forall|i: int| 0 <= i < s.drop_last().len() implies is_digit(
            #[trigger] s.drop_last()[i],
        ) by {
            assert(s.drop_last()[i] == s[i]);
        }
        lemma_decimal_bound(s.drop_last());
        assert(is_digit(s.last()));
    }
}

} // verus!
