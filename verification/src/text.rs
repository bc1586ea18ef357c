//! Building text: decimal numbers and joined lists.

use vstd::prelude::*;

verus! {

/// The character of a decimal digit `d` in `0..10`.
pub open spec fn decimal_digit(d: int) -> char {
    (d + 48) as char
}

/// The decimal text of `n`, without leading zeros.
pub open spec fn decimal(n: nat) -> Seq<char>
    decreases n,
{
    if n < 10 {
        seq![decimal_digit(n as int)]
    } else {
        decimal(n / 10).push(decimal_digit((n % 10) as int))
    }
}

/// The decimal text of a signed `n`: a `-` before the digits of a negative number.
pub open spec fn signed_decimal(n: int) -> Seq<char> {
    if n < 0 {
        seq!['-'] + decimal((-n) as nat)
    } else {
        decimal(n as nat)
    }
}

/// The items of `list` with `sep` between each two.
pub open spec fn join(list: Seq<Seq<char>>, sep: Seq<char>) -> Seq<char>
    decreases list.len(),
{
    if list.len() == 0 {
        seq![]
    } else if list.len() == 1 {
        list[0]
    } else {
        join(list.drop_last(), sep) + sep + list.last()
    }
}

/// The total number of characters of the items.
pub open spec fn total_chars(list: Seq<Seq<char>>) -> nat
    decreases list.len(),
{
    if list.len() == 0 {
        0
    } else {
        list[0].len() + total_chars(list.drop_first())
    }
}

/// Joining two or more items puts `sep` between the join of all but the
/// last and the last.
pub proof fn lemma_join_step(list: Seq<Seq<char>>, sep: Seq<char>)
    requires
        list.len() >= 2,
    ensures
        join(list, sep) == join(list.take(list.len() - 1), sep) + sep + list[list.len() - 1],
{
    assert(list.drop_last() =~= list.take(list.len() - 1));
}

/// The join of one item is the item.
pub proof fn lemma_join_single(list: Seq<Seq<char>>, sep: Seq<char>)
    requires
        list.len() == 1,
    ensures
        join(list, sep) == list[0],
{
}

proof fn lemma_total_chars_last(list: Seq<Seq<char>>)
    requires
        list.len() > 0,
    ensures
        total_chars(list) == total_chars(list.drop_last()) + list.last().len(),
    decreases list.len(),
{
    if list.len() > 1 {
        let rest = list.drop_first();
        lemma_total_chars_last(rest);
        assert(rest.drop_last() =~= list.drop_last().drop_first());
        assert(list.drop_last()[0] == list[0]);
    } else {
        assert(list.drop_first() =~= Seq::<Seq<char>>::empty());
        assert(list.drop_last() =~= Seq::<Seq<char>>::empty());
    }
}

/// The join of `n >= 1` items holds every character of every item and
/// exactly `n - 1` separators.
pub proof fn lemma_join_len(list: Seq<Seq<char>>, sep: Seq<char>)
    requires
        list.len() >= 1,
    ensures
        join(list, sep).len() == total_chars(list) + (list.len() - 1) * sep.len(),
    decreases list.len(),
{
    lemma_total_chars_last(list);
    if list.len() == 1 {
        assert(list.drop_last() =~= Seq::<Seq<char>>::empty());
    } else {
        lemma_join_len(list.drop_last(), sep);
        let n = list.len() as int;
        let s = sep.len() as int;
        assert((n - 2) * s + s == (n - 1) * s) by (nonlinear_arith);
    }
}

/// The texts that a slice of string slices holds.
pub open spec fn str_views(list: Seq<&str>) -> Seq<Seq<char>> {
    list.map_values(|s: &str| s@)
}

fn digit_char(d: u64) -> (c: char)
    requires
        d < 10,
    ensures
        c == decimal_digit(d as int),
{
    match d {
        0 => '0',
        1 => '1',
        2 => '2',
        3 => '3',
        4 => '4',
        5 => '5',
        6 => '6',
        7 => '7',
        8 => '8',
        _ => '9',
    }
}

/// Appends the decimal text of `n`.
pub fn push_decimal(out: &mut String, n: u64)
    ensures
        final(out)@ == old(out)@ + decimal(n as nat),
    decreases n,
{
    if n >= 10 {
        push_decimal(out, n / 10);
    }
    out.push(digit_char(n % 10));
    proof {
        if n >= 10 {
            assert(old(out)@ + decimal(n as nat) =~= old(out)@ + decimal((n / 10) as nat) + seq![
                decimal_digit((n % 10) as int),
            ]);
        } else {
            assert(decimal(n as nat) =~= seq![decimal_digit((n % 10) as int)]);
        }
    }
}

/// Appends the decimal text of a signed `n`.
pub fn push_signed_decimal(out: &mut String, n: i64)
    ensures
        final(out)@ == old(out)@ + signed_decimal(n as int),
{
    if n < 0 {
        out.push('-');
        let magnitude: u64 = ((-(n + 1)) as u64) + 1;
        push_decimal(out, magnitude);
        assert(final(out)@ =~= old(out)@ + signed_decimal(n as int));
    } else {
        push_decimal(out, n as u64);
    }
}

/// Appends the items of `list` with `sep` between each two.
pub fn push_joined(out: &mut String, list: &[&str], sep: &str)
    ensures
        final(out)@ == old(out)@ + join(str_views(list@), sep@),
{
    let ghost views = str_views(list@);
    let ghost start = out@;
    let mut i: usize = 0;
    while i < list.len()
        invariant
            0 <= i <= list@.len(),
            views == str_views(list@),
            out@ == start + join(views.take(i as int), sep@),
        decreases list@.len() - i,
    {
        if i != 0 {
            out.append(sep);
        }
        out.append(list[i]);
        i = i + 1;
        proof {
            let prefix = views.take(i as int);
            assert(prefix.drop_last() =~= views.take(i - 1));
            if i == 1 {
                assert(join(views.take(0), sep@) =~= seq![]);
            }
        }
    }
    assert(views.take(list@.len() as int) =~= views);
}

} // verus!
