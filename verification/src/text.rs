//! Text: joined lists and decimal numbers.
use vstd::prelude::*;
use vstd::string::*;

verus! {

/// What each string of a list reads.
pub open spec fn texts(list: Seq<String>) -> Seq<Seq<char>> {
    list.map_values(|s: String| s@)
}

/// The parts one after the other, with `sep` between each two neighbours.
pub open spec fn joined(parts: Seq<Seq<char>>, sep: Seq<char>) -> Seq<char>
    decreases parts.len(),
{
    if parts.len() == 0 {
        Seq::empty()
    } else if parts.len() == 1 {
        parts[0]
    } else {
        parts[0] + sep + joined(parts.skip(1), sep)
    }
}

/// Calls `itertools::Itertools::join` on the strings of `parts`.
///
/// Trusted: the result is the strings in their order with `sep` between each
/// two neighbours, and the empty string where there are none. The outside
/// function reserves `sep.len()` bytes for each part; with a separator of at
/// most one byte that cannot exceed what a vector of strings already takes.
#[verifier::external_body]
pub(crate) fn join(parts: &Vec<String>, sep: &str) -> (res: String)
    requires
        sep.is_ascii(),
        sep@.len() <= 1,
    ensures
        res@ == joined(texts(parts@), sep@),
{
    itertools::Itertools::join(&mut parts.iter(), sep)
}

/// The decimal digits of `n`, without leading zeros.
pub open spec fn decimal(n: nat) -> Seq<char>
    decreases n,
{
    if n < 10 {
        seq![digit(n)]
    } else {
        decimal(n / 10).push(digit(n % 10))
    }
}

/// The digit that stands for `n`.
pub open spec fn digit(n: nat) -> char {
    (n + 48) as char
}

/// The digit that stands for `n`, as text.
pub(crate) fn digit_text(n: u64) -> (res: &'static str)
    requires
        n < 10,
    ensures
        res@ == seq![digit(n as nat)],
{
    proof {
        reveal_strlit("0");
        reveal_strlit("1");
        reveal_strlit("2");
        reveal_strlit("3");
        reveal_strlit("4");
        reveal_strlit("5");
        reveal_strlit("6");
        reveal_strlit("7");
        reveal_strlit("8");
        reveal_strlit("9");
    }
    match n {
        0 => "0",
        1 => "1",
        2 => "2",
        3 => "3",
        4 => "4",
        5 => "5",
        6 => "6",
        7 => "7",
        8 => "8",
        _ => "9",
    }
}

/// Writes `n` in decimal.
pub fn decimal_text(n: u64) -> (res: String)
    ensures
        res@ == decimal(n as nat),
    decreases n,
{
    if n < 10 {
        digit_text(n).to_string()
    } else {
        let rest: String = decimal_text(n / 10);
        let res: String = rest.concat(digit_text(n % 10));
        assert(res@ =~= decimal(n as nat));
        res
    }
}

/// `part` stands in `text` from the place `i` on.
pub open spec fn stands_at(text: Seq<char>, part: Seq<char>, i: int) -> bool {
    &&& 0 <= i <= text.len() - part.len()
    &&& text.subrange(i, i + part.len()) == part
}

/// `part` stands somewhere in `text`.
pub open spec fn mentions(text: Seq<char>, part: Seq<char>) -> bool {
    exists|i: int| stands_at(text, part, i)
}

/// A text mentions whatever it is put together from.
pub(crate) proof fn a_sum_mentions_its_parts(before: Seq<char>, part: Seq<char>, after: Seq<char>)
    ensures
        mentions(before + part + after, part),
{
    let text = before + part + after;
    let i = before.len() as int;
    assert(text.subrange(i, i + part.len()) =~= part);
    assert(stands_at(text, part, i));
}

/// A text mentions what its parts mention.
pub(crate) proof fn mentions_are_passed_on(text: Seq<char>, part: Seq<char>, inner: Seq<char>)
    requires
        mentions(text, part),
        mentions(part, inner),
    ensures
        mentions(text, inner),
{
    let i = choose|i: int| stands_at(text, part, i);
    let j = choose|j: int| stands_at(part, inner, j);
    assert(text.subrange(i + j, i + j + inner.len()) =~= part.subrange(j, j + inner.len()));
    assert(stands_at(text, inner, i + j));
}

/// A joined list mentions every part.
pub(crate) proof fn a_list_mentions_its_parts(parts: Seq<Seq<char>>, sep: Seq<char>, i: int)
    requires
        0 <= i < parts.len(),
    ensures
        mentions(joined(parts, sep), parts[i]),
    decreases parts.len(),
{
    let whole = joined(parts, sep);
    if i == 0 {
        let after = whole.skip(parts[0].len() as int);
        assert(Seq::<char>::empty() + parts[0] + after =~= whole);
        a_sum_mentions_its_parts(Seq::empty(), parts[0], after);
    } else {
        let rest = joined(parts.skip(1), sep);
        a_list_mentions_its_parts(parts.skip(1), sep, i - 1);
        assert(parts.skip(1)[i - 1] == parts[i]);
        assert(parts[0] + sep + rest + Seq::empty() =~= whole);
        a_sum_mentions_its_parts(parts[0] + sep, rest, Seq::empty());
        mentions_are_passed_on(whole, rest, parts[i]);
    }
}

/// `text` opens with `before`, closes with `after`, and between the two stands
/// `middle` and nothing else.
pub open spec fn framed(
    text: Seq<char>,
    before: Seq<char>,
    middle: Seq<char>,
    after: Seq<char>,
) -> bool {
    &&& text.len() == before.len() + middle.len() + after.len()
    &&& before.is_prefix_of(text)
    &&& after.is_suffix_of(text)
    &&& text.subrange(before.len() as int, text.len() - after.len()) == middle
}

/// Three texts one behind the other frame the one in the middle.
pub(crate) proof fn a_sum_is_framed(before: Seq<char>, middle: Seq<char>, after: Seq<char>)
    ensures
        framed(before + middle + after, before, middle, after),
{
    let text = before + middle + after;
    assert(before =~= text.subrange(0, before.len() as int));
    assert(after =~= text.subrange(text.len() - after.len(), text.len() as int));
    assert(text.subrange(before.len() as int, text.len() - after.len()) =~= middle);
}

/// A list is read string by string.
pub proof fn a_list_of_strings_is_read_one_by_one(list: Seq<String>)
    ensures
        texts(list).len() == list.len(),
        forall|i: int| 0 <= i < list.len() ==> #[trigger] texts(list)[i] == list[i]@,
{
}

/// A list of one part reads as that part, and a part behind others adds the
/// separator and itself.
pub proof fn a_list_grows_at_its_end(parts: Seq<Seq<char>>, sep: Seq<char>, last: Seq<char>)
    ensures
        joined(Seq::empty(), sep) == Seq::<char>::empty(),
        joined(seq![last], sep) == last,
        parts.len() > 0 ==> framed(joined(parts.push(last), sep), joined(parts, sep), sep, last),
    decreases parts.len(),
{
    if parts.len() == 1 {
        let both = parts.push(last);
        assert(both.skip(1) =~= seq![last]);
        assert(joined(both.skip(1), sep) == last);
        a_sum_is_framed(parts[0], sep, last);
    } else if parts.len() > 1 {
        let rest = parts.skip(1);
        let all = parts.push(last);
        assert(all.skip(1) =~= rest.push(last));
        a_list_grows_at_its_end(rest, sep, last);
        let tail = joined(rest.push(last), sep);
        let inner = joined(rest, sep);
        assert(tail =~= inner + sep + last) by {
            assert(inner =~= tail.subrange(0, inner.len() as int));
            assert(sep =~= tail.subrange(inner.len() as int, tail.len() - last.len()));
            assert(last =~= tail.subrange(tail.len() - last.len(), tail.len() as int));
        }
        assert(joined(all, sep) =~= (parts[0] + sep + inner) + sep + last);
        a_sum_is_framed(parts[0] + sep + inner, sep, last);
    }
}

/// The number that a text of decimal digits stands for.
pub open spec fn read_back(digits: Seq<char>) -> nat
    decreases digits.len(),
{
    if digits.len() == 0 {
        0
    } else {
        read_back(digits.drop_last()) * 10 + (digits.last() as nat - '0' as nat) as nat
    }
}

/// A number in decimal reads back as that number, is made of digits, and has
/// no zero in front unless it is zero.
pub proof fn a_decimal_reads_back(n: nat)
    ensures
        read_back(decimal(n)) == n,
        decimal(n).len() > 0,
        forall|i: int| 0 <= i < decimal(n).len() ==> '0' <= #[trigger] decimal(n)[i] <= '9',
        decimal(n)[0] == '0' ==> n == 0 && decimal(n).len() == 1,
    decreases n,
{
    if n < 10 {
        assert(seq![digit(n)].drop_last() =~= Seq::empty());
        assert(read_back(seq![digit(n)].drop_last()) == 0);
    } else {
        a_decimal_reads_back(n / 10);
        assert(decimal(n).drop_last() =~= decimal(n / 10));
        assert(decimal(n)[0] == decimal(n / 10)[0]);
    }
}

} // verus!
