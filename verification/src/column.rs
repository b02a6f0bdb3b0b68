//! Spreadsheet-style column lettering: column index 0 is `A`, 25 is `Z`,
//! 26 is `AA`, 701 is `ZZ`, 702 is `AAA`, and so on — a bijective base-26
//! numbering over the letters `A` through `Z`.

use crate::text::push_char;
use vstd::prelude::*;

verus! {

/// The letter character for digit `d` (`0 <= d <= 25`): `A` for 0 up to `Z`
/// for 25.
pub open spec fn letter_char(d: nat) -> char {
    ((65 + d) as u8) as char
}

/// The spreadsheet-style label of zero-based column index `n`, as a sequence
/// of characters: the bijective base-26 digits of `n`, most significant
/// first.
pub open spec fn spec_label(n: nat) -> Seq<char>
    decreases n,
{
    if n < 26 {
        seq![letter_char(n)]
    } else {
        spec_label((n / 26 - 1) as nat).push(letter_char(n % 26))
    }
}

/// The spreadsheet-style label of zero-based column index `col`.
pub fn get_column(col: u32) -> (r: String)
    ensures
        r@ == spec_label(col as nat),
    decreases col,
{
    let d: u8 = (col % 26) as u8 + 65;
    let c: char = d as char;
    proof {
        assert(c == letter_char((col % 26) as nat));
    }
    if col < 26 {
        let mut s = String::new();
        push_char(&mut s, c);
        proof {
            assert(s@ =~= seq![letter_char(col as nat)]);
        }
        s
    } else {
        let mut s = get_column(col / 26 - 1);
        push_char(&mut s, c);
        s
    }
}

/// Lexicographic strictly-less-than on character sequences of equal length:
/// at the first differing position, the smaller code point decides.
pub open spec fn lex_lt(a: Seq<char>, b: Seq<char>) -> bool
    decreases a.len(),
{
    if a.len() == 0 || b.len() == 0 {
        false
    } else if a[0] != b[0] {
        (a[0] as nat) < (b[0] as nat)
    } else {
        lex_lt(a.drop_first(), b.drop_first())
    }
}

/// Spreadsheet-column ordering on column labels: a shorter label names an
/// earlier column, and labels of equal length compare lexicographically.
pub open spec fn column_lt(a: Seq<char>, b: Seq<char>) -> bool {
    a.len() < b.len() || (a.len() == b.len() && lex_lt(a, b))
}

proof fn lemma_label_len(n: nat)
    ensures
        spec_label(n).len() >= 1,
    decreases n,
{
    if n >= 26 {
        lemma_label_len((n / 26 - 1) as nat);
    }
}

proof fn lemma_lex_lt_push(a: Seq<char>, b: Seq<char>, x: char, y: char)
    requires
        a.len() == b.len(),
        lex_lt(a, b),
    ensures
        lex_lt(a.push(x), b.push(y)),
    decreases a.len(),
{
    if a.len() > 0 {
        if a[0] == b[0] {
            lemma_lex_lt_push(a.drop_first(), b.drop_first(), x, y);
            assert(a.push(x).drop_first() =~= a.drop_first().push(x));
            assert(b.push(y).drop_first() =~= b.drop_first().push(y));
        }
    }
}

proof fn lemma_lex_lt_push_last(a: Seq<char>, x: char, y: char)
    requires
        (x as nat) < (y as nat),
    ensures
        lex_lt(a.push(x), a.push(y)),
    decreases a.len(),
{
    if a.len() == 0 {
        assert(a.push(x)[0] == x);
        assert(a.push(y)[0] == y);
    } else {
        lemma_lex_lt_push_last(a.drop_first(), x, y);
        assert(a.push(x).drop_first() =~= a.drop_first().push(x));
        assert(a.push(y).drop_first() =~= a.drop_first().push(y));
    }
}

proof fn lemma_lex_irrefl(a: Seq<char>)
    ensures
        !lex_lt(a, a),
    decreases a.len(),
{
    if a.len() > 0 {
        lemma_lex_irrefl(a.drop_first());
    }
}

/// The labeling is strictly increasing: a smaller column index always yields
/// a label that comes strictly earlier in spreadsheet-column order.
pub proof fn lemma_label_strictly_increasing(m: nat, n: nat)
    requires
        m < n,
    ensures
        column_lt(spec_label(m), spec_label(n)),
    decreases n,
{
    if n < 26 {
        assert(spec_label(m)[0] == letter_char(m));
        assert(spec_label(n)[0] == letter_char(n));
        assert((letter_char(m) as nat) < (letter_char(n) as nat));
    } else if m < 26 {
        lemma_label_len((n / 26 - 1) as nat);
        assert(spec_label(n).len() >= 2);
    } else {
        let qm = (m / 26 - 1) as nat;
        let qn = (n / 26 - 1) as nat;
        let dm = m % 26;
        let dn = n % 26;
        vstd::arithmetic::div_mod::lemma_div_is_ordered(m as int, n as int, 26);
        if qm == qn {
            vstd::arithmetic::div_mod::lemma_fundamental_div_mod(m as int, 26);
            vstd::arithmetic::div_mod::lemma_fundamental_div_mod(n as int, 26);
            assert(dm < dn);
            assert((letter_char(dm) as nat) < (letter_char(dn) as nat));
            lemma_lex_lt_push_last(spec_label(qm), letter_char(dm), letter_char(dn));
        } else {
            lemma_label_strictly_increasing(qm, qn);
            if spec_label(qm).len() == spec_label(qn).len() {
                lemma_lex_lt_push(spec_label(qm), spec_label(qn), letter_char(dm), letter_char(dn));
            }
        }
    }
}

/// The labeling is injective: distinct column indices never share a label.
pub proof fn lemma_label_injective(m: nat, n: nat)
    ensures
        spec_label(m) == spec_label(n) ==> m == n,
{
    if m != n && spec_label(m) == spec_label(n) {
        if m < n {
            lemma_label_strictly_increasing(m, n);
        } else {
            lemma_label_strictly_increasing(n, m);
        }
        lemma_lex_irrefl(spec_label(m));
    }
}

} // verus!
