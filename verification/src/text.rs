//! Text building blocks for messages.

use vstd::prelude::*;

verus! {

/// The decimal digit `d`, for `d` below ten.
pub open spec fn digit(d: nat) -> char {
    (48 + d) as char
}

/// The usual decimal notation of `n`, without leading zeros.
pub open spec fn decimal(n: nat) -> Seq<char>
    decreases n,
{
    if n < 10 {
        seq![digit(n)]
    } else {
        decimal(n / 10).push(digit(n % 10))
    }
}

/// The decimal notation of an integer, with a minus sign where it is negative.
pub open spec fn signed_decimal(n: int) -> Seq<char> {
    if n < 0 {
        seq!['-'] + decimal((-n) as nat)
    } else {
        decimal(n as nat)
    }
}

/// `items` one after the other, with `", "` between neighbours.
pub open spec fn comma_separated(items: Seq<Seq<char>>) -> Seq<char>
    decreases items.len(),
{
    if items.len() == 0 {
        seq![]
    } else if items.len() == 1 {
        items[0]
    } else {
        comma_separated(items.drop_last()) + seq![',', ' '] + items.last()
    }
}

/// `items` as a bracketed list: `[a, b, c]`.
pub open spec fn bracketed(items: Seq<Seq<char>>) -> Seq<char> {
    seq!['['] + comma_separated(items) + seq![']']
}

/// The bracketed list of the numbers in `values`: `[1, 2, 3]`.
pub open spec fn number_list(values: Seq<usize>) -> Seq<char> {
    bracketed(values.map_values(|v: usize| decimal(v as nat)))
}

/// One decimal digit as text.
fn digit_text(d: u64) -> (text: &'static str)
    requires
        d < 10,
    ensures
        text@ == seq![digit(d as nat)],
{
    proof {
        reveal_strlit("0");
        reveal_strlit("1");
        reveal_strlit("2");
        reveal_strlit("3");
        reveal_strlit("4");
        reveal_strlit("5");
        reveal_strlit("6");
        reveal_strlit("7");
        reveal_strlit("8");
        reveal_strlit("9");
    }
    let text = match d {
        0 => "0",
        1 => "1",
        2 => "2",
        3 => "3",
        4 => "4",
        5 => "5",
        6 => "6",
        7 => "7",
        8 => "8",
        _ => "9",
    };
    assert(text@ =~= seq![digit(d as nat)]);
    text
}

/// The decimal notation of an unsigned number.
pub fn unsigned_text(n: u64) -> (text: String)
    ensures
        text@ == decimal(n as nat),
    decreases n,
{
    if n < 10 {
        digit_text(n).to_owned()
    } else {
        let mut text = unsigned_text(n / 10);
        text.append(digit_text(n % 10));
        assert(text@ =~= decimal(n as nat));
        text
    }
}

/// The decimal notation of a status code.
pub fn signed_text(n: i32) -> (text: String)
    ensures
        text@ == signed_decimal(n as int),
{
    if n < 0 {
        proof {
            reveal_strlit("-");
        }
        let magnitude: u64 = (-(n as i64)) as u64;
        let mut text = "-".to_owned();
        text.append(unsigned_text(magnitude).as_str());
        assert(text@ =~= signed_decimal(n as int));
        text
    } else {
        unsigned_text(n as u64)
    }
}

/// The items of `items` as a bracketed list.
pub fn bracketed_text(items: &Vec<String>) -> (text: String)
    ensures
        text@ == bracketed(items@.map_values(|s: String| s@)),
{
    let ghost views = items@.map_values(|s: String| s@);
    proof {
        reveal_strlit("[");
        reveal_strlit("]");
        reveal_strlit(", ");
    }
    let mut text = "[".to_owned();
    let mut i: usize = 0;
    assert(text@ =~= seq!['['] + comma_separated(views.take(0)));
    while i < items.len()
        invariant
            i <= items.len(),
            views == items@.map_values(|s: String| s@),
            ", "@ == seq![',', ' '],
            text@ == seq!['['] + comma_separated(views.take(i as int)),
        decreases items.len() - i,
    {
        let ghost before = text@;
        if i > 0 {
            text.append(", ");
        }
        text.append(items[i].as_str());
        proof {
            let longer = views.take(i + 1);
            assert(longer.drop_last() =~= views.take(i as int));
            assert(longer.last() == items@[i as int]@);
            assert(text@ =~= seq!['['] + comma_separated(longer));
        }
        i += 1;
    }
    text.append("]");
    assert(views.take(i as int) =~= views);
    assert(text@ =~= bracketed(views));
    text
}

/// The numbers in `values` as a bracketed list.
pub fn number_list_text(values: &Vec<usize>) -> (text: String)
    ensures
        text@ == number_list(values@),
{
    let mut items: Vec<String> = Vec::new();
    let mut i: usize = 0;
    while i < values.len()
        invariant
            i <= values.len(),
            items.len() == i,
            forall|j: int| 0 <= j < i ==> (#[trigger] items@[j])@ == decimal(values@[j] as nat),
        decreases values.len() - i,
    {
        items.push(unsigned_text(values[i] as u64));
        i += 1;
    }
    assert(items@.map_values(|s: String| s@) =~= values@.map_values(
        |v: usize| decimal(v as nat),
    ));
    bracketed_text(&items)
}

/// The number that decimal digits spell.
pub open spec fn numeral_value(digits: Seq<char>) -> int
    decreases digits.len(),
{
    if digits.len() == 0 {
        0
    } else {
        10 * numeral_value(digits.drop_last()) + (digits.last() as int - '0' as int)
    }
}

/// A number is written in decimal digits that spell it, with no zero in front
/// of another digit.
pub proof fn law_decimal_spells_the_number(n: nat)
    ensures
        decimal(n).len() > 0,
        forall|i: int| 0 <= i < decimal(n).len() ==> '0' <= #[trigger] decimal(n)[i] <= '9',
        decimal(n).len() > 1 ==> decimal(n)[0] != '0',
        numeral_value(decimal(n)) == n,
    decreases n,
{
    reveal_with_fuel(numeral_value, 2);
    if n < 10 {
        assert(decimal(n).drop_last() =~= seq![]);
        assert(decimal(n)[0] == digit(n));
    } else {
        let head = decimal(n / 10);
        law_decimal_spells_the_number(n / 10);
        assert(decimal(n).drop_last() =~= head);
        if head.len() == 1 {
            assert(head.drop_last() =~= seq![]);
            assert(numeral_value(head) == head[0] as int - 48);
        }
        assert(decimal(n)[0] == head[0]);
    }
}

/// A negative number is a minus sign before what its magnitude reads as.
pub proof fn law_sign_comes_first(n: int)
    ensures
        n >= 0 ==> numeral_value(signed_decimal(n)) == n && signed_decimal(n)[0] != '-',
        n >= 0 ==> signed_decimal(n) == decimal(n as nat),
        n < 0 ==> signed_decimal(n)[0] == '-' && numeral_value(signed_decimal(n).skip(1)) == -n,
        n < 0 ==> signed_decimal(n).skip(1) == decimal((-n) as nat),
{
    if n >= 0 {
        law_decimal_spells_the_number(n as nat);
        assert('0' <= decimal(n as nat)[0]);
    } else {
        law_decimal_spells_the_number((-n) as nat);
        assert(signed_decimal(n).skip(1) =~= decimal((-n) as nat));
    }
}

/// A list grows at its end: another item goes before the closing bracket,
/// behind a comma and a space unless it is the first.
pub proof fn law_lists_grow_at_the_end(items: Seq<Seq<char>>, item: Seq<char>)
    ensures
        items.len() == 0 ==> bracketed(items) == seq!['[', ']'],
        bracketed(items).len() >= 2,
        bracketed(items.push(item)) == bracketed(items).drop_last() + (if items.len() == 0 {
            seq![]
        } else {
            seq![',', ' ']
        }) + item + seq![']'],
{
    let more = items.push(item);
    assert(more.drop_last() =~= items);
    assert(more.last() == item);
    if items.len() == 0 {
        assert(more[0] == item);
        assert(bracketed(items) =~= seq!['[', ']']);
    }
    assert(bracketed(items).drop_last() =~= seq!['['] + comma_separated(items));
    assert(bracketed(more) =~= bracketed(items).drop_last() + (if items.len() == 0 {
        seq![]
    } else {
        seq![',', ' ']
    }) + item + seq![']']);
}

/// A list of numbers lists what each number reads as, in order.
pub proof fn law_number_lists(values: Seq<usize>)
    ensures
        number_list(values) == bracketed(
            Seq::new(values.len(), |i: int| decimal(values[i] as nat)),
        ),
{
    assert(values.map_values(|v: usize| decimal(v as nat)) =~= Seq::new(
        values.len(),
        |i: int| decimal(values[i] as nat),
    ));
}

} // verus!
