//! Textual forms: decimal and hexadecimal numerals, quoted strings and joined
//! paths. Every function builds a `String` whose characters are given by a
//! specification over `Seq<char>`.

use vstd::prelude::*;

verus! {

/// The character that writes the digit `d` in base sixteen, in upper case.
/// Digits below ten are the decimal digits.
pub open spec fn digit_char(d: int) -> char {
    if d == 0 {
        '0'
    } else if d == 1 {
        '1'
    } else if d == 2 {
        '2'
    } else if d == 3 {
        '3'
    } else if d == 4 {
        '4'
    } else if d == 5 {
        '5'
    } else if d == 6 {
        '6'
    } else if d == 7 {
        '7'
    } else if d == 8 {
        '8'
    } else if d == 9 {
        '9'
    } else if d == 10 {
        'A'
    } else if d == 11 {
        'B'
    } else if d == 12 {
        'C'
    } else if d == 13 {
        'D'
    } else if d == 14 {
        'E'
    } else {
        'F'
    }
}

/// The decimal numeral of `n`: no sign, no leading zero, `0` for zero.
pub open spec fn decimal(n: nat) -> Seq<char>
    decreases n,
{
    if n < 10 {
        seq![digit_char(n as int)]
    } else {
        decimal(n / 10).push(digit_char((n % 10) as int))
    }
}

/// The decimal numeral of an integer: a minus sign before the numeral of the
/// magnitude when `i` is negative.
pub open spec fn signed_decimal(i: int) -> Seq<char> {
    if i < 0 {
        seq!['-'] + decimal((-i) as nat)
    } else {
        decimal(i as nat)
    }
}

/// The last `width` digits of `n` in base sixteen, upper case, most
/// significant first, padded with zeros on the left.
pub open spec fn hex(n: nat, width: nat) -> Seq<char>
    decreases width,
{
    if width == 0 {
        Seq::empty()
    } else {
        hex(n / 16, (width - 1) as nat).push(digit_char((n % 16) as int))
    }
}

/// `s` between two double quotes. Nothing inside `s` is escaped.
pub open spec fn quoted(s: Seq<char>) -> Seq<char> {
    seq!['"'] + s + seq!['"']
}

/// The parts written one after another with `/` between neighbours; empty for
/// no parts.
pub open spec fn joined(parts: Seq<Seq<char>>) -> Seq<char>
    decreases parts.len(),
{
    if parts.len() == 0 {
        Seq::empty()
    } else if parts.len() == 1 {
        parts[0]
    } else {
        joined(parts.drop_last()) + seq!['/'] + parts.last()
    }
}

/// The characters of a string that may be absent.
pub open spec fn option_text(s: Option<String>) -> Option<Seq<char>> {
    match s {
        Some(t) => Some(t@),
        None => None,
    }
}

/// The character sequences held by a vector of strings.
pub open spec fn texts(parts: Seq<String>) -> Seq<Seq<char>> {
    Seq::new(parts.len(), |i: int| parts[i]@)
}

/// Sixteen to the power `width`: the number of numerals of that many digits.
pub open spec fn sixteen_to(width: nat) -> nat
    decreases width,
{
    if width == 0 {
        1
    } else {
        16 * sixteen_to((width - 1) as nat)
    }
}

/// Whether no character of `s` is the separator `/`.
pub open spec fn slash_free(s: Seq<char>) -> bool {
    forall|i: int| 0 <= i < s.len() ==> s[i] != '/'
}

/// Whether no part holds the separator `/`.
pub open spec fn all_slash_free(parts: Seq<Seq<char>>) -> bool {
    forall|i: int| 0 <= i < parts.len() ==> slash_free(#[trigger] parts[i])
}

/// Different numbers have different decimal numerals.
pub proof fn lemma_decimal_is_injective(a: nat, b: nat)
    requires
        decimal(a) == decimal(b),
    ensures
        a == b,
    decreases a,
{
    if a < 10 && b < 10 {
        assert(decimal(a)[0] == digit_char(a as int));
        assert(decimal(b)[0] == digit_char(b as int));
    } else if a < 10 {
        assert(decimal(a).len() == 1);
        assert(decimal(b).len() == decimal(b / 10).len() + 1);
        lemma_decimal_is_not_empty(b / 10);
    } else if b < 10 {
        assert(decimal(b).len() == 1);
        assert(decimal(a).len() == decimal(a / 10).len() + 1);
        lemma_decimal_is_not_empty(a / 10);
    } else {
        let head_a = decimal(a / 10);
        let head_b = decimal(b / 10);
        let last_a = digit_char((a % 10) as int);
        let last_b = digit_char((b % 10) as int);
        assert(head_a =~= head_a.push(last_a).drop_last());
        assert(head_b =~= head_b.push(last_b).drop_last());
        assert(last_a == head_a.push(last_a).last());
        assert(last_b == head_b.push(last_b).last());
        assert(a % 10 == b % 10);
        lemma_decimal_is_injective(a / 10, b / 10);
    }
}

/// A decimal numeral has at least one digit.
proof fn lemma_decimal_is_not_empty(n: nat)
    ensures
        decimal(n).len() >= 1,
    decreases n,
{
    if n >= 10 {
        lemma_decimal_is_not_empty(n / 10);
    }
}

/// A numeral of `width` digits has `width` characters.
pub proof fn lemma_hex_len(n: nat, width: nat)
    ensures
        hex(n, width).len() == width,
    decreases width,
{
    if width > 0 {
        lemma_hex_len(n / 16, (width - 1) as nat);
    }
}

/// Numbers that fit in `width` digits and have the same numeral are equal.
pub proof fn lemma_hex_is_injective(a: nat, b: nat, width: nat)
    requires
        a < sixteen_to(width),
        b < sixteen_to(width),
        hex(a, width) == hex(b, width),
    ensures
        a == b,
    decreases width,
{
    if width > 0 {
        let shorter = (width - 1) as nat;
        let head_a = hex(a / 16, shorter);
        let head_b = hex(b / 16, shorter);
        let last_a = digit_char((a % 16) as int);
        let last_b = digit_char((b % 16) as int);
        assert(head_a =~= head_a.push(last_a).drop_last());
        assert(head_b =~= head_b.push(last_b).drop_last());
        assert(last_a == head_a.push(last_a).last());
        assert(last_b == head_b.push(last_b).last());
        assert(a % 16 == b % 16);
        lemma_hex_is_injective(a / 16, b / 16, shorter);
    }
}

/// A text is split in one way only into a head, a `/` and a tail without
/// `/`: the tail starts behind the last separator.
proof fn lemma_last_split_is_unique(
    head_a: Seq<char>,
    tail_a: Seq<char>,
    head_b: Seq<char>,
    tail_b: Seq<char>,
)
    requires
        slash_free(tail_a),
        slash_free(tail_b),
        head_a + seq!['/'] + tail_a == head_b + seq!['/'] + tail_b,
    ensures
        head_a == head_b,
        tail_a == tail_b,
{
    let whole_a = head_a + seq!['/'] + tail_a;
    let whole_b = head_b + seq!['/'] + tail_b;
    assert(whole_a.len() == head_a.len() + 1 + tail_a.len());
    assert(whole_b.len() == head_b.len() + 1 + tail_b.len());
    assert(whole_a[head_a.len() as int] == '/');
    assert(whole_b[head_b.len() as int] == '/');
    if head_a.len() < head_b.len() {
        let at = head_b.len() - head_a.len() - 1;
        assert(whole_a[head_b.len() as int] == tail_a[at]);
        assert(false);
    }
    if head_b.len() < head_a.len() {
        let at = head_a.len() - head_b.len() - 1;
        assert(whole_b[head_a.len() as int] == tail_b[at]);
        assert(false);
    }
    assert forall|i: int| 0 <= i < head_a.len() implies head_a[i] == head_b[i] by {
        assert(whole_a[i] == head_a[i]);
        assert(whole_b[i] == head_b[i]);
    }
    assert(head_a =~= head_b);
    assert forall|i: int| 0 <= i < tail_a.len() implies tail_a[i] == tail_b[i] by {
        assert(whole_a[head_a.len() + 1 + i] == tail_a[i]);
        assert(whole_b[head_b.len() + 1 + i] == tail_b[i]);
    }
    assert(tail_a =~= tail_b);
}

/// Non-empty sequences of parts without `/` that are joined to the same text
/// are the same sequence.
pub proof fn lemma_joined_is_injective(a: Seq<Seq<char>>, b: Seq<Seq<char>>)
    requires
        all_slash_free(a),
        all_slash_free(b),
        a.len() >= 1,
        b.len() >= 1,
        joined(a) == joined(b),
    ensures
        a == b,
    decreases a.len(),
{
    if a.len() == 1 && b.len() == 1 {
        assert(a =~= b);
    } else if a.len() == 1 {
        let text = joined(b.drop_last()) + seq!['/'] + b.last();
        assert(text[joined(b.drop_last()).len() as int] == '/');
        assert(slash_free(a[0]));
        assert(false);
    } else if b.len() == 1 {
        let text = joined(a.drop_last()) + seq!['/'] + a.last();
        assert(text[joined(a.drop_last()).len() as int] == '/');
        assert(slash_free(b[0]));
        assert(false);
    } else {
        assert(slash_free(a[a.len() - 1]));
        assert(slash_free(b[b.len() - 1]));
        let front_a = a.drop_last();
        let front_b = b.drop_last();
        lemma_last_split_is_unique(joined(front_a), a.last(), joined(front_b), b.last());
        assert forall|i: int| 0 <= i < front_a.len() implies slash_free(#[trigger] front_a[i]) by {
            assert(front_a[i] == a[i]);
        }
        assert forall|i: int| 0 <= i < front_b.len() implies slash_free(#[trigger] front_b[i]) by {
            assert(front_b[i] == b[i]);
        }
        lemma_joined_is_injective(front_a, front_b);
        assert(a =~= front_a.push(a.last()));
        assert(b =~= front_b.push(b.last()));
    }
}

/// One digit as a string slice.
fn digit_str(d: u64) -> (s: &'static str)
    requires
        d < 16,
    ensures
        s@ == seq![digit_char(d as int)],
{
    proof {
        reveal_strlit("0");
        reveal_strlit("1");
        reveal_strlit("2");
        reveal_strlit("3");
        reveal_strlit("4");
        reveal_strlit("5");
        reveal_strlit("6");
        reveal_strlit("7");
        reveal_strlit("8");
        reveal_strlit("9");
        reveal_strlit("A");
        reveal_strlit("B");
        reveal_strlit("C");
        reveal_strlit("D");
        reveal_strlit("E");
        reveal_strlit("F");
    }
    let s: &'static str = if d == 0 {
        "0"
    } else if d == 1 {
        "1"
    } else if d == 2 {
        "2"
    } else if d == 3 {
        "3"
    } else if d == 4 {
        "4"
    } else if d == 5 {
        "5"
    } else if d == 6 {
        "6"
    } else if d == 7 {
        "7"
    } else if d == 8 {
        "8"
    } else if d == 9 {
        "9"
    } else if d == 10 {
        "A"
    } else if d == 11 {
        "B"
    } else if d == 12 {
        "C"
    } else if d == 13 {
        "D"
    } else if d == 14 {
        "E"
    } else {
        "F"
    };
    assert(s@ =~= seq![digit_char(d as int)]);
    s
}

/// Writes `n` in decimal.
pub fn decimal_text(n: u64) -> (s: String)
    ensures
        s@ == decimal(n as nat),
    decreases n,
{
    if n < 10 {
        String::from_str(digit_str(n))
    } else {
        let mut s: String = decimal_text(n / 10);
        s.append(digit_str(n % 10));
        assert(s@ =~= decimal((n / 10) as nat).push(digit_char((n % 10) as int)));
        s
    }
}

/// Writes `i` in decimal, with a minus sign when it is negative.
pub fn signed_decimal_text(i: i64) -> (s: String)
    ensures
        s@ == signed_decimal(i as int),
{
    if i >= 0 {
        decimal_text(i as u64)
    } else {
        let below: i64 = -(i + 1);
        let magnitude: u64 = below as u64 + 1;
        let mut s: String = String::from_str("-");
        let digits: String = decimal_text(magnitude);
        s.append(digits.as_str());
        proof {
            reveal_strlit("-");
            assert(s@ =~= seq!['-'] + decimal((-i) as nat));
        }
        s
    }
}

/// Writes the last `width` base-sixteen digits of `n`, upper case.
pub fn hex_text(n: u64, width: u8) -> (s: String)
    ensures
        s@ == hex(n as nat, width as nat),
    decreases width,
{
    if width == 0 {
        String::new()
    } else {
        let mut s: String = hex_text(n / 16, width - 1);
        s.append(digit_str(n % 16));
        assert(s@ =~= hex((n / 16) as nat, (width - 1) as nat).push(digit_char((n % 16) as int)));
        s
    }
}

/// Puts `s` between double quotes.
pub fn quoted_text(s: &str) -> (q: String)
    ensures
        q@ == quoted(s@),
{
    let mut q: String = String::from_str("\"");
    q.append(s);
    q.append("\"");
    proof {
        reveal_strlit("\"");
        assert(q@ =~= quoted(s@));
    }
    q
}

/// Joins the parts with `/`.
pub fn joined_text(parts: &[String]) -> (s: String)
    ensures
        s@ == joined(texts(parts@)),
{
    let mut s: String = String::new();
    let mut i: usize = 0;
    while i < parts.len()
        invariant
            i <= parts.len(),
            s@ == joined(texts(parts@).take(i as int)),
        decreases parts.len() - i,
    {
        let ghost before = texts(parts@).take(i as int);
        let ghost after = texts(parts@).take(i + 1);
        if i > 0 {
            s.append("/");
        }
        s.append(parts[i].as_str());
        proof {
            reveal_strlit("/");
            assert(after.drop_last() =~= before);
            assert(after.last() == parts@[i as int]@);
            assert(s@ =~= joined(after));
        }
        i = i + 1;
    }
    assert(texts(parts@).take(i as int) =~= texts(parts@));
    s
}

} // verus!
