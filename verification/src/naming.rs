//! Names for new languages: the lower-case form of what the user typed, and a number
//! after it when that name is taken.

use vstd::prelude::*;
use crate::str_map::StrMap;

verus! {

/// The decimal digit for `d`, which is below ten.
pub open spec fn digit_char(d: nat) -> char {
    if d == 0 {
        '0'
    } else if d == 1 {
        '1'
    } else if d == 2 {
        '2'
    } else if d == 3 {
        '3'
    } else if d == 4 {
        '4'
    } else if d == 5 {
        '5'
    } else if d == 6 {
        '6'
    } else if d == 7 {
        '7'
    } else if d == 8 {
        '8'
    } else {
        '9'
    }
}

/// The value of a decimal digit character.
pub open spec fn digit_value(c: char) -> int {
    if c == '0' {
        0
    } else if c == '1' {
        1
    } else if c == '2' {
        2
    } else if c == '3' {
        3
    } else if c == '4' {
        4
    } else if c == '5' {
        5
    } else if c == '6' {
        6
    } else if c == '7' {
        7
    } else if c == '8' {
        8
    } else {
        9
    }
}

/// `n` written in decimal, without leading zeros.
pub open spec fn decimal(n: nat) -> Seq<char>
    decreases n,
{
    if n < 10 {
        seq![digit_char(n)]
    } else {
        decimal(n / 10).push(digit_char(n % 10))
    }
}

/// The number that a string of decimal digits writes.
pub open spec fn decimal_value(s: Seq<char>) -> int
    decreases s.len(),
{
    if s.len() == 0 {
        0
    } else {
        decimal_value(s.drop_last()) * 10 + digit_value(s.last())
    }
}

/// Each digit character reads back as its digit.
proof fn lemma_digit(d: nat)
    requires
        d < 10,
    ensures
        digit_value(digit_char(d)) == d,
{
}

/// Reading back the decimal form of `n` gives `n`.
pub proof fn lemma_decimal_value(n: nat)
    ensures
        decimal_value(decimal(n)) == n,
    decreases n,
{
    let s = decimal(n);
    assert(s.len() > 0);
    assert(decimal_value(s) == decimal_value(s.drop_last()) * 10 + digit_value(s.last()));
    if n < 10 {
        lemma_digit(n);
        assert(s.drop_last() =~= Seq::<char>::empty());
        assert(decimal_value(Seq::<char>::empty()) == 0);
        assert(s.last() == digit_char(n));
    } else {
        lemma_decimal_value(n / 10);
        lemma_digit(n % 10);
        assert(decimal(n).drop_last() =~= decimal(n / 10));
        assert(decimal(n).last() == digit_char(n % 10));
        assert((n / 10) * 10 + n % 10 == n);
    }
}

/// Two numbers with the same decimal form are the same number.
pub proof fn lemma_decimal_injective(a: nat, b: nat)
    requires
        decimal(a) == decimal(b),
    ensures
        a == b,
{
    lemma_decimal_value(a);
    lemma_decimal_value(b);
}

/// The name `language N`: the language, a space, and `n` in decimal.
pub open spec fn numbered_name(language: Seq<char>, n: nat) -> Seq<char> {
    language + seq![' '] + decimal(n)
}

/// Different numbers give different numbered names.
pub proof fn lemma_numbered_name_injective(language: Seq<char>, a: nat, b: nat)
    requires
        numbered_name(language, a) == numbered_name(language, b),
    ensures
        a == b,
{
    let p = language + seq![' '];
    let na = numbered_name(language, a);
    let nb = numbered_name(language, b);
    assert(na.subrange(p.len() as int, na.len() as int) =~= decimal(a));
    assert(nb.subrange(p.len() as int, nb.len() as int) =~= decimal(b));
    lemma_decimal_injective(a, b);
}

/// When `language 2` up to `language n` are all names in `taken`, `taken` holds at least
/// `n - 1` names.
pub proof fn lemma_numbered_names_counted(taken: Set<Seq<char>>, language: Seq<char>, n: nat)
    requires
        taken.finite(),
        n >= 2,
        forall|m: nat| 2 <= m <= n ==> taken.contains(#[trigger] numbered_name(language, m)),
    ensures
        n - 1 <= taken.len(),
{
    let f = |m: int| numbered_name(language, m as nat);
    let range = vstd::set_lib::set_int_range(2, (n + 1) as int);
    vstd::set_lib::lemma_int_range(2, (n + 1) as int);
    assert forall|x: int, y: int| range.contains(x) && range.contains(y) && #[trigger] f(x) == #[trigger] f(
        y,
    ) implies x == y by {
        lemma_numbered_name_injective(language, x as nat, y as nat);
    }
    let names = range.map(f);
    vstd::set_lib::lemma_map_size(range, names, f);
    assert forall|s: Seq<char>| names.contains(s) implies taken.contains(s) by {
        let m = choose|m: int| range.contains(m) && f(m) == s;
        assert(taken.contains(numbered_name(language, m as nat)));
    }
    vstd::set_lib::lemma_len_subset(names, taken);
}

/// The one-character text of the digit `d`.
fn digit_text(d: u32) -> (t: &'static str)
    requires
        d < 10,
    ensures
        t@ == seq![digit_char(d as nat)],
{
    if d == 0 {
        proof { reveal_strlit("0"); }
        "0"
    } else if d == 1 {
        proof { reveal_strlit("1"); }
        "1"
    } else if d == 2 {
        proof { reveal_strlit("2"); }
        "2"
    } else if d == 3 {
        proof { reveal_strlit("3"); }
        "3"
    } else if d == 4 {
        proof { reveal_strlit("4"); }
        "4"
    } else if d == 5 {
        proof { reveal_strlit("5"); }
        "5"
    } else if d == 6 {
        proof { reveal_strlit("6"); }
        "6"
    } else if d == 7 {
        proof { reveal_strlit("7"); }
        "7"
    } else if d == 8 {
        proof { reveal_strlit("8"); }
        "8"
    } else {
        proof { reveal_strlit("9"); }
        "9"
    }
}

/// `n` in decimal.
pub fn decimal_text(n: u32) -> (t: String)
    ensures
        t@ == decimal(n as nat),
{
    let mut rest: u32 = n;
    let mut text = String::new();
    while rest >= 10
        invariant
            decimal(n as nat) == decimal(rest as nat) + text@,
        decreases rest,
    {
        let ghost old_text = text@;
        let piece = digit_text(rest % 10).to_owned();
        text = piece.concat(text.as_str());
        proof {
            assert(decimal(rest as nat) == decimal((rest / 10) as nat).push(digit_char((rest % 10) as nat)));
            assert(decimal(rest as nat) + old_text =~= decimal((rest / 10) as nat) + text@);
        }
        rest = rest / 10;
    }
    let piece = digit_text(rest).to_owned();
    let ghost old_text = text@;
    text = piece.concat(text.as_str());
    assert(text@ =~= decimal(rest as nat) + old_text);
    text
}

/// `language N` for the language and the number `n`.
pub fn language_with_number(language: &String, n: u32) -> (name: String)
    ensures
        name@ == numbered_name(language@, n as nat),
{
    let number = decimal_text(n);
    proof {
        reveal_strlit(" ");
    }
    let name = language.clone().concat(" ").concat(number.as_str());
    assert(name@ =~= numbered_name(language@, n as nat));
    name
}

/// A name for a new language that none of `languages` has: `language` itself when it is
/// free, else `language N` for the smallest `N` from 2 up that is free.
pub fn unused_language_name<V>(languages: &StrMap<V>, language: &String) -> (name: String)
    requires
        languages@.len() < i32::MAX - 1,
    ensures
        !languages@.dom().contains(name@),
        !languages@.dom().contains(language@) ==> name@ == language@,
        languages@.dom().contains(language@) ==> exists|n: nat|
            {
                &&& n >= 2
                &&& name@ == numbered_name(language@, n)
                &&& forall|m: nat| 2 <= m < n ==> languages@.dom().contains(
                    #[trigger] numbered_name(language@, m),
                )
            },
{
    if !languages.contains_key(language) {
        return language.clone();
    }
    let mut n: u32 = 2;
    let mut candidate = language_with_number(language, n);
    let len: usize = languages.len();
    while languages.contains_key(&candidate)
        invariant
            2 <= n <= len + 2,
            len == languages@.len(),
            len < i32::MAX - 1,
            languages@.dom().finite(),
            candidate@ == numbered_name(language@, n as nat),
            forall|m: nat| 2 <= m < n ==> languages@.dom().contains(
                #[trigger] numbered_name(language@, m),
            ),
        decreases len + 2 - n,
    {
        proof {
            assert forall|m: nat| 2 <= m <= n implies languages@.dom().contains(
                #[trigger] numbered_name(language@, m),
            ) by {
                if m < n {
                    assert(languages@.dom().contains(numbered_name(language@, m)));
                }
            }
            lemma_numbered_names_counted(languages@.dom(), language@, n as nat);
        }
        n = n + 1;
        candidate = language_with_number(language, n);
    }
    candidate
}

/// The lower-case form of a text under `str::to_lowercase`.
pub uninterp spec fn lowercase(text: Seq<char>) -> Seq<char>;

/// Lower-cases `text` with `str::to_lowercase`, which maps each character to its Unicode
/// lower-case form. Claimed only that the result is `lowercase` of the text: a function of
/// the text alone.
#[verifier::external_body]
pub(crate) fn to_lowercase(text: &String) -> (lower: String)
    ensures
        lower@ == lowercase(text@),
{
    text.to_lowercase()
}

} // verus!
