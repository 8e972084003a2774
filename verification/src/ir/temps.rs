//! The names of generated temporaries: `TEMP` followed by the number of the
//! temporary in decimal.

use vstd::prelude::*;
use vstd::string::*;
use crate::session::{first_index, interned, lemma_first_index, lemma_first_index_is};

verus! {

/// The character of a decimal digit.
pub open spec fn digit(d: nat) -> char {
    if d == 0 {
        '0'
    } else if d == 1 {
        '1'
    } else if d == 2 {
        '2'
    } else if d == 3 {
        '3'
    } else if d == 4 {
        '4'
    } else if d == 5 {
        '5'
    } else if d == 6 {
        '6'
    } else if d == 7 {
        '7'
    } else if d == 8 {
        '8'
    } else {
        '9'
    }
}

/// A number in decimal, without leading zeros.
pub open spec fn decimal(n: nat) -> Seq<char>
    decreases n,
{
    if n < 10 {
        seq![digit(n)]
    } else {
        decimal(n / 10).push(digit(n % 10))
    }
}

/// The text of the name of the `n`-th temporary.
pub open spec fn temp_text(n: nat) -> Seq<char> {
    seq!['T', 'E', 'M', 'P'] + decimal(n)
}

/// A number below ten has one digit, any other number has more.
pub proof fn lemma_decimal_len(n: nat)
    ensures
        decimal(n).len() >= 1,
        n < 10 <==> decimal(n).len() == 1,
    decreases n,
{
    if n >= 10 {
        lemma_decimal_len(n / 10);
    }
}

/// Different digits have different characters.
pub proof fn lemma_digit_injective(a: nat, b: nat)
    requires
        a < 10,
        b < 10,
        digit(a) == digit(b),
    ensures
        a == b,
{
}

/// Different numbers are written differently.
pub proof fn lemma_decimal_injective(a: nat, b: nat)
    requires
        decimal(a) == decimal(b),
    ensures
        a == b,
    decreases a,
{
    lemma_decimal_len(a);
    lemma_decimal_len(b);
    if a < 10 {
        assert(decimal(a)[0] == digit(a));
        assert(decimal(b)[0] == digit(b));
        lemma_digit_injective(a, b);
    } else {
        let da = decimal(a / 10).push(digit(a % 10));
        let db = decimal(b / 10).push(digit(b % 10));
        assert(da.drop_last() == decimal(a / 10));
        assert(db.drop_last() == decimal(b / 10));
        assert(da.last() == digit(a % 10));
        assert(db.last() == digit(b % 10));
        lemma_decimal_injective(a / 10, b / 10);
        lemma_digit_injective(a % 10, b % 10);
    }
}

/// Different temporaries have different names.
pub proof fn lemma_temp_text_injective(a: nat, b: nat)
    requires
        temp_text(a) == temp_text(b),
    ensures
        a == b,
{
    let prefix = seq!['T', 'E', 'M', 'P'];
    assert(temp_text(a).subrange(4, temp_text(a).len() as int) == decimal(a));
    assert(temp_text(b).subrange(4, temp_text(b).len() as int) == decimal(b));
    lemma_decimal_injective(a, b);
}

/// `big` starts with the entries of `small`.
pub open spec fn extends(big: Seq<Seq<char>>, small: Seq<Seq<char>>) -> bool {
    small.len() <= big.len() && forall|i: int| 0 <= i < small.len() ==> big[i] == small[i]
}

/// The table after the names of the temporaries `from`, `from + 1`, ... up
/// to, but without, `to` were interned in this order.
pub open spec fn intern_temps(table: Seq<Seq<char>>, from: nat, to: nat) -> Seq<Seq<char>>
    decreases to,
{
    if to <= from {
        table
    } else {
        interned(intern_temps(table, from, (to - 1) as nat), temp_text((to - 1) as nat))
    }
}

/// A text that a table holds keeps its handle in every longer table.
pub proof fn lemma_first_index_extends(big: Seq<Seq<char>>, small: Seq<Seq<char>>, text: Seq<char>)
    requires
        extends(big, small),
        first_index(small, text) < small.len(),
    ensures
        first_index(big, text) == first_index(small, text),
{
    lemma_first_index(small, text);
    lemma_first_index_is(big, text, first_index(small, text));
}

/// Interning keeps what was there, and afterwards the table holds the text
/// at the handle that interning gave.
pub proof fn lemma_interned(table: Seq<Seq<char>>, text: Seq<char>)
    ensures
        extends(interned(table, text), table),
        first_index(interned(table, text), text) == first_index(table, text),
        first_index(table, text) < interned(table, text).len(),
{
    lemma_first_index(table, text);
    if first_index(table, text) == table.len() {
        lemma_first_index_is(table.push(text), text, table.len());
    }
}

/// Interning a run of temporaries keeps what was there, and afterwards the
/// table holds the name of each of them.
pub proof fn lemma_intern_temps(table: Seq<Seq<char>>, from: nat, to: nat)
    ensures
        extends(intern_temps(table, from, to), table),
        forall|n: nat|
            from <= n < to ==> first_index(intern_temps(table, from, to), #[trigger] temp_text(n))
                < intern_temps(table, from, to).len(),
    decreases to,
{
    if to > from {
        let before = intern_temps(table, from, (to - 1) as nat);
        let after = intern_temps(table, from, to);
        lemma_intern_temps(table, from, (to - 1) as nat);
        lemma_interned(before, temp_text((to - 1) as nat));
        assert forall|n: nat| from <= n < to implies first_index(after, #[trigger] temp_text(n))
            < after.len() by {
            if n < to - 1 {
                lemma_first_index_extends(after, before, temp_text(n));
            }
        }
    }
}

/// A run of no temporaries changes nothing, and a run is the run without
/// its last temporary, followed by that temporary.
pub proof fn lemma_intern_temps_unfold(table: Seq<Seq<char>>, from: nat, to: nat)
    requires
        from <= to,
    ensures
        intern_temps(table, from, from) == table,
        intern_temps(table, from, to + 1) == interned(
            intern_temps(table, from, to),
            temp_text(to),
        ),
{
}

/// The longer of three tables starts with the shortest.
pub proof fn lemma_extends_trans(c: Seq<Seq<char>>, b: Seq<Seq<char>>, a: Seq<Seq<char>>)
    requires
        extends(c, b),
        extends(b, a),
    ensures
        extends(c, a),
{
}

/// Two runs of temporaries, one after the other, are one run.
pub proof fn lemma_intern_temps_join(table: Seq<Seq<char>>, from: nat, mid: nat, to: nat)
    requires
        from <= mid <= to,
    ensures
        intern_temps(intern_temps(table, from, mid), mid, to) == intern_temps(table, from, to),
    decreases to,
{
    if to > mid {
        lemma_intern_temps_join(table, from, mid, (to - 1) as nat);
    }
}

/// Two runs of temporaries, one after the other: the table at the end is
/// the table after one run, and each table starts with the one before.
pub proof fn lemma_runs_join(
    start: Seq<Seq<char>>,
    from: nat,
    middle: Seq<Seq<char>>,
    mid: nat,
    end: Seq<Seq<char>>,
    to: nat,
)
    requires
        from <= mid <= to,
        middle == intern_temps(start, from, mid),
        end == intern_temps(middle, mid, to),
    ensures
        end == intern_temps(start, from, to),
        extends(middle, start),
        extends(end, middle),
        extends(end, start),
{
    lemma_intern_temps_join(start, from, mid, to);
    lemma_intern_temps(start, from, mid);
    lemma_intern_temps(middle, mid, to);
}

/// The one-character string of a decimal digit.
fn digit_str(d: u64) -> (s: &'static str)
    requires
        d < 10,
    ensures
        s@ == seq![digit(d as nat)],
{
    proof {
        reveal_strlit("0");
        reveal_strlit("1");
        reveal_strlit("2");
        reveal_strlit("3");
        reveal_strlit("4");
        reveal_strlit("5");
        reveal_strlit("6");
        reveal_strlit("7");
        reveal_strlit("8");
        reveal_strlit("9");
    }
    let s = if d == 0 {
        "0"
    } else if d == 1 {
        "1"
    } else if d == 2 {
        "2"
    } else if d == 3 {
        "3"
    } else if d == 4 {
        "4"
    } else if d == 5 {
        "5"
    } else if d == 6 {
        "6"
    } else if d == 7 {
        "7"
    } else if d == 8 {
        "8"
    } else {
        "9"
    };
    assert(s@ =~= seq![digit(d as nat)]);
    s
}

/// `n` in decimal.
pub fn decimal_string(n: u64) -> (s: String)
    ensures
        s@ == decimal(n as nat),
    decreases n,
{
    if n < 10 {
        String::from_str(digit_str(n))
    } else {
        let mut s = decimal_string(n / 10);
        s.append(digit_str(n % 10));
        assert(s@ =~= decimal(n as nat));
        s
    }
}

/// The name of the `n`-th temporary.
pub fn temp_string(n: usize) -> (s: String)
    ensures
        s@ == temp_text(n as nat),
{
    proof {
        reveal_strlit("TEMP");
    }
    let mut s = String::from_str("TEMP");
    let digits = decimal_string(n as u64);
    s.append(digits.as_str());
    assert(s@ =~= temp_text(n as nat));
    s
}

} // verus!
