//! Building the pieces of text that records and addresses are made of:
//! decimal numbers, lists of bytes, and parts joined by a separator.

use vstd::prelude::*;
use vstd::string::StringExecFns;

verus! {

/// The character of a decimal digit.
pub open spec fn digit(d: nat) -> char
    recommends
        d < 10,
{
    seq!['0', '1', '2', '3', '4', '5', '6', '7', '8', '9'][d as int]
}

/// A natural number in decimal, without sign or leading zeros.
pub open spec fn decimal(n: nat) -> Seq<char>
    decreases n,
{
    if n < 10 {
        seq![digit(n)]
    } else {
        decimal(n / 10).push(digit(n % 10))
    }
}

fn digit_text(d: u64) -> (text: &'static str)
    requires
        d < 10,
    ensures
        text@ == seq![digit(d as nat)],
{
    proof {
        reveal_strlit("0");
        reveal_strlit("1");
        reveal_strlit("2");
        reveal_strlit("3");
        reveal_strlit("4");
        reveal_strlit("5");
        reveal_strlit("6");
        reveal_strlit("7");
        reveal_strlit("8");
        reveal_strlit("9");
    }
    let text = if d == 0 {
        "0"
    } else if d == 1 {
        "1"
    } else if d == 2 {
        "2"
    } else if d == 3 {
        "3"
    } else if d == 4 {
        "4"
    } else if d == 5 {
        "5"
    } else if d == 6 {
        "6"
    } else if d == 7 {
        "7"
    } else if d == 8 {
        "8"
    } else {
        "9"
    };
    assert(text@ =~= seq![digit(d as nat)]);
    text
}

/// Writes a number in decimal.
pub fn decimal_text(n: u64) -> (text: String)
    ensures
        text@ == decimal(n as nat),
    decreases n,
{
    if n < 10 {
        String::from_str(digit_text(n))
    } else {
        let mut text = decimal_text(n / 10);
        text.append(digit_text(n % 10));
        assert(text@ =~= decimal((n / 10) as nat).push(digit((n % 10) as nat)));
        text
    }
}

/// The numbers of a byte sequence in decimal, a comma and a space between
/// neighbours.
pub open spec fn listed(bytes: Seq<u8>) -> Seq<char>
    decreases bytes.len(),
{
    if bytes.len() == 0 {
        Seq::empty()
    } else if bytes.len() == 1 {
        decimal(bytes[0] as nat)
    } else {
        listed(bytes.drop_last()) + seq![',', ' '] + decimal(bytes.last() as nat)
    }
}

/// A byte sequence as a bracketed list, such as `[104, 105, 10]`.
pub open spec fn byte_list(bytes: Seq<u8>) -> Seq<char> {
    seq!['['] + listed(bytes) + seq![']']
}

/// Writes captured bytes as a bracketed list of decimal numbers.
pub fn byte_list_text(bytes: &Vec<u8>) -> (text: String)
    ensures
        text@ == byte_list(bytes@),
{
    proof {
        reveal_strlit("[");
        reveal_strlit("]");
        reveal_strlit(", ");
    }
    let mut text = String::from_str("[");
    let mut i: usize = 0;
    while i < bytes.len()
        invariant
            i <= bytes.len(),
            text@ == seq!['['] + listed(bytes@.take(i as int)),
            ", "@ == seq![',', ' '],
        decreases bytes.len() - i,
    {
        if i > 0 {
            text.append(", ");
        }
        let number = decimal_text(bytes[i] as u64);
        text.append(number.as_str());
        proof {
            let before = bytes@.take(i as int);
            let now = bytes@.take(i + 1);
            assert(now.drop_last() =~= before);
            assert(now.last() == bytes@[i as int]);
            if i == 0 {
                assert(listed(before) =~= Seq::<char>::empty());
                assert(now[0] == bytes@[0]);
                assert(text@ =~= seq!['['] + listed(now));
            } else {
                assert(text@ =~= seq!['['] + listed(now));
            }
        }
        i += 1;
    }
    assert(bytes@.take(i as int) =~= bytes@);
    text.append("]");
    assert(text@ =~= byte_list(bytes@));
    text
}

/// Two texts with an underscore between them.
pub open spec fn joined(left: Seq<char>, right: Seq<char>) -> Seq<char> {
    left + seq!['_'] + right
}

/// Joins two texts with an underscore.
pub fn join(left: &str, right: &str) -> (text: String)
    ensures
        text@ == joined(left@, right@),
{
    proof {
        reveal_strlit("_");
    }
    let mut text = String::from_str(left);
    text.append("_");
    text.append(right);
    assert(text@ =~= joined(left@, right@));
    text
}

/// Whether a text is free of underscores.
pub open spec fn no_separator(text: Seq<char>) -> bool {
    forall|i: int| 0 <= i < text.len() ==> #[trigger] text[i] != '_'
}

proof fn lemma_digits_differ(a: nat, b: nat)
    requires
        a < 10,
        b < 10,
        digit(a) == digit(b),
    ensures
        a == b,
        digit(a) != '_',
{
    let digits = seq!['0', '1', '2', '3', '4', '5', '6', '7', '8', '9'];
    assert(digits[0] == '0' && digits[1] == '1' && digits[2] == '2' && digits[3] == '3'
        && digits[4] == '4');
    assert(digits[5] == '5' && digits[6] == '6' && digits[7] == '7' && digits[8] == '8'
        && digits[9] == '9');
}

/// A number in decimal has at least one character, and no underscore.
pub proof fn decimal_has_no_separator(n: nat)
    ensures
        decimal(n).len() >= 1,
        no_separator(decimal(n)),
    decreases n,
{
    if n < 10 {
        lemma_digits_differ(n, n);
    } else {
        decimal_has_no_separator(n / 10);
        lemma_digits_differ(n % 10, n % 10);
    }
}

/// Two numbers with the same decimal text are the same number.
pub proof fn decimal_is_injective(a: nat, b: nat)
    requires
        decimal(a) == decimal(b),
    ensures
        a == b,
    decreases a,
{
    decimal_has_no_separator(a / 10);
    decimal_has_no_separator(b / 10);
    if a < 10 && b < 10 {
        assert(decimal(a)[0] == digit(a));
        assert(decimal(b)[0] == digit(b));
        lemma_digits_differ(a, b);
    } else if a < 10 {
        assert(decimal(b).len() >= 2);
    } else if b < 10 {
        assert(decimal(a).len() >= 2);
    } else {
        let left = decimal(a / 10).push(digit(a % 10));
        let right = decimal(b / 10).push(digit(b % 10));
        assert(left.drop_last() =~= decimal(a / 10));
        assert(right.drop_last() =~= decimal(b / 10));
        assert(left.last() == digit(a % 10));
        assert(right.last() == digit(b % 10));
        decimal_is_injective(a / 10, b / 10);
        lemma_digits_differ(a % 10, b % 10);
    }
}

/// A joined text whose right part has no underscore can be taken apart in
/// one way only: at its last underscore.
pub proof fn joined_splits_at_last_separator(
    left: Seq<char>,
    right: Seq<char>,
    other_left: Seq<char>,
    other_right: Seq<char>,
)
    requires
        joined(left, right) == joined(other_left, other_right),
        no_separator(right),
        no_separator(other_right),
    ensures
        left == other_left,
        right == other_right,
{
    let whole = joined(left, right);
    let other = joined(other_left, other_right);
    assert(whole.len() == left.len() + 1 + right.len());
    assert(other.len() == other_left.len() + 1 + other_right.len());
    assert(whole[left.len() as int] == '_');
    assert(other[other_left.len() as int] == '_');
    if left.len() > other_left.len() {
        let at = left.len() as int;
        assert(other[at] == other_right[at - other_left.len() - 1]);
    } else if left.len() < other_left.len() {
        let at = other_left.len() as int;
        assert(whole[at] == right[at - left.len() - 1]);
    }
    assert(left.len() == other_left.len());
    assert forall|i: int| 0 <= i < left.len() implies left[i] == other_left[i] by {
        assert(whole[i] == left[i]);
        assert(other[i] == other_left[i]);
    }
    assert(left =~= other_left);
    assert forall|i: int| 0 <= i < right.len() implies right[i] == other_right[i] by {
        assert(whole[left.len() + 1 + i] == right[i]);
        assert(other[other_left.len() + 1 + i] == other_right[i]);
    }
    assert(right =~= other_right);
}

/// Two joined texts with the same right part agree only if their left parts
/// do.
pub proof fn joined_cancels_right(left: Seq<char>, other_left: Seq<char>, right: Seq<char>)
    requires
        joined(left, right) == joined(other_left, right),
    ensures
        left == other_left,
{
    let whole = joined(left, right);
    let other = joined(other_left, right);
    assert(whole.len() == left.len() + 1 + right.len());
    assert(other.len() == other_left.len() + 1 + right.len());
    assert forall|i: int| 0 <= i < left.len() implies left[i] == other_left[i] by {
        assert(whole[i] == left[i]);
        assert(other[i] == other_left[i]);
    }
    assert(left =~= other_left);
}

} // verus!
