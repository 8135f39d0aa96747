//! How the best of several blocks is found.

use vstd::arithmetic::power::pow;
use vstd::prelude::*;

use crate::block::{
    after_two_bytes, best_block, block_value, block_value_of, blocks_reply, hex_value, highest,
    lemma_highest, number, parse_hex, readings, unsigned_digits, value_in, value_limit,
    values_in, BlockValue,
};
use crate::json::{parsed_text, Json, JsonView};
use crate::laws::answers::lemma_body_of;
use crate::laws::holds;
use crate::reply::{bodies, bodies_of, Outcome, Reply};
use crate::text::{digit_value, hex_digit, texts};

verus! {

/// Whether an answer is an object whose `result` is an object whose `blockValue` is a text.
pub open spec fn prices(answer: JsonView, text: Seq<char>) -> bool {
    exists|result: JsonView|
        #![trigger holds(answer, "result"@, result)]
        holds(answer, "result"@, result) && holds(result, "blockValue"@, JsonView::Str(text))
}

/// Whether a character is the digit for a number, in either case.
pub open spec fn is_digit(c: char, d: int) -> bool {
    ||| 0 <= d < 10 && c as int == 48 + d
    ||| 10 <= d < 16 && (c as int == 87 + d || c as int == 55 + d)
}

/// Whether a character is a hexadecimal digit.
pub open spec fn is_some_digit(c: char) -> bool {
    exists|d: int| is_digit(c, d)
}

/// Whether a text is made of hexadecimal digits.
pub open spec fn is_hex(digits: Seq<char>) -> bool {
    digits.len() > 0 && forall|i: int|
        0 <= i < digits.len() ==> is_some_digit(#[trigger] digits[i])
}

/// Whether two bytes in UTF-8 mark a number: two characters of one byte, or one of two.
pub open spec fn is_mark(mark: Seq<char>) -> bool {
    ||| mark.len() == 2 && (mark[0] as int) < 128 && (mark[1] as int) < 128
    ||| mark.len() == 1 && 128 <= (mark[0] as int) < 2048
}

/// The digits stand for the numbers that they are written for, and no other character does.
pub proof fn law_digits_stand_for_numbers(c: char, r: Option<u8>)
    requires
        call_ensures(digit_value, (c,), r),
    ensures
        forall|d: int| #[trigger] is_digit(c, d) ==> (r matches Some(found) && found == d),
        r matches Some(found) ==> is_digit(c, found as int),
{
}

/// A digit stands for one number.
pub(crate) proof fn lemma_digit(c: char)
    ensures
        hex_digit(c) matches Some(d) ==> d < 16 && is_digit(c, d as int),
        hex_digit(c) is Some <==> is_some_digit(c),
        forall|d: int| #[trigger] is_digit(c, d) ==> hex_digit(c) == Some(d as u8),
{
    if hex_digit(c) is Some {
        assert(is_digit(c, hex_digit(c)->0 as int));
    }
}

/// Characters stand for numbers if they are digits.
proof fn lemma_all_digits(digits: Seq<char>)
    ensures
        (forall|i: int| 0 <= i < digits.len() ==> hex_digit(#[trigger] digits[i]) is Some) <==> (
        forall|i: int|
            0 <= i < digits.len() ==> is_some_digit(#[trigger] digits[i])),
{
    assert forall|i: int| 0 <= i < digits.len() implies (hex_digit(#[trigger] digits[i]) is Some
        <==> is_some_digit(digits[i])) by {
        lemma_digit(digits[i]);
    }
}

/// Digits count by their place: digits in front of others count sixteen times as much for each of
/// these, and a single digit counts what it stands for.
pub proof fn law_digits_count_by_place(front: Seq<char>, back: Seq<char>, c: char, d: int)
    ensures
        hex_value(front + back) == hex_value(front) * pow(16, back.len()) + hex_value(back),
        is_digit(c, d) ==> hex_value(seq![c]) == d,
    decreases back.len(),
{
    lemma_digit(c);
    reveal_with_fuel(hex_value, 2);
    assert(seq![c].drop_last() =~= Seq::empty());
    vstd::arithmetic::power::lemma_pow0(16);
    if back.len() == 0 {
        assert(front + back =~= front);
    } else {
        law_digits_count_by_place(front, back.drop_last(), c, d);
        assert((front + back).drop_last() =~= front + back.drop_last());
        let n = (back.len() - 1) as nat;
        vstd::arithmetic::power::lemma_pow_adds(16, n, 1);
        vstd::arithmetic::power::lemma_pow1(16);
        let v = hex_value(front) as int;
        let p = pow(16, n);
        assert((v * p) * 16 == v * (p * 16)) by (nonlinear_arith);
    }
}

/// Digits count less than the place before them.
proof fn lemma_fits(digits: Seq<char>)
    requires
        forall|i: int| 0 <= i < digits.len() ==> hex_digit(#[trigger] digits[i]) is Some,
    ensures
        hex_value(digits) < pow(16, digits.len()),
    decreases digits.len(),
{
    vstd::arithmetic::power::lemma_pow0(16);
    if digits.len() > 0 {
        let n = (digits.len() - 1) as nat;
        let before = digits.drop_last();
        assert forall|i: int| 0 <= i < before.len() implies hex_digit(#[trigger] before[i]) is Some by {
            assert(before[i] == digits[i]);
        }
        lemma_fits(before);
        lemma_digit(digits.last());
        assert(hex_digit(digits[digits.len() - 1]) is Some);
        vstd::arithmetic::power::lemma_pow_adds(16, n, 1);
        vstd::arithmetic::power::lemma_pow1(16);
    }
}

/// 256 bits hold sixty-four digits.
proof fn lemma_limit(n: nat)
    requires
        n <= 64,
    ensures
        pow(16, n) <= value_limit(),
{
    vstd::arithmetic::power::lemma_pow_increases(16, n, 64);
    vstd::arithmetic::power::lemma_pow0(16);
    vstd::arithmetic::power::lemma_pow1(16);
    vstd::arithmetic::power::lemma_pow_adds(16, 1, 1);
    assert(pow(16, 2) == 0x100);
    lemma_square(2, 0x100, 0x1_0000);
    lemma_square(4, 0x1_0000, 0x1_0000_0000);
    lemma_square(8, 0x1_0000_0000, 0x1_0000_0000_0000_0000);
    lemma_square(
        16,
        0x1_0000_0000_0000_0000,
        0x1_0000_0000_0000_0000_0000_0000_0000_0000int,
    );
    lemma_square(
        32,
        0x1_0000_0000_0000_0000_0000_0000_0000_0000int,
        0x1_0000000000000000_0000000000000000_0000000000000000_0000000000000000int,
    );
}

/// Twice as many digits count the square.
proof fn lemma_square(n: nat, root: int, square: int)
    requires
        pow(16, n) == root,
        root * root == square,
    ensures
        pow(16, 2 * n) == square,
{
    vstd::arithmetic::power::lemma_pow_adds(16, n, n);
}

/// The value of a block is the number behind the first two bytes of `blockValue`, and nothing else
/// in the answer has a say: digits are read, with a plus sign before them or not, if there are any
/// and 256 bits hold their number, as they do for up to sixty-four digits.
pub proof fn law_value_is_the_price(
    answer: &Json,
    r: Option<BlockValue>,
    mark: Seq<char>,
    digits: Seq<char>,
)
    requires
        call_ensures(block_value, (answer,), r),
        is_mark(mark),
        is_hex(digits),
        prices(answer@, mark + digits) || prices(answer@, mark + (seq!['+'] + digits)),
    ensures
        r is Some <==> hex_value(digits) < value_limit(),
        digits.len() <= 64 ==> r is Some,
        r matches Some(value) ==> value@ == hex_value(digits),
{
    lemma_price(answer@, mark, digits);
}

/// The value of a block is its price.
proof fn lemma_price(answer: JsonView, mark: Seq<char>, digits: Seq<char>)
    requires
        is_mark(mark),
        is_hex(digits),
        prices(answer, mark + digits) || prices(answer, mark + (seq!['+'] + digits)),
    ensures
        block_value_of(answer) == if hex_value(digits) < value_limit() {
            Some(hex_value(digits))
        } else {
            None
        },
        digits.len() <= 64 ==> hex_value(digits) < value_limit(),
{
    lemma_all_digits(digits);
    let text = if prices(answer, mark + digits) {
        mark + digits
    } else {
        mark + (seq!['+'] + digits)
    };
    let rest = if prices(answer, mark + digits) {
        digits
    } else {
        seq!['+'] + digits
    };
    assert(answer.member("result"@).member("blockValue"@).text() == Some(text));
    assert(text[0] == mark[0]);
    if mark.len() == 2 {
        assert(text[1] == mark[1]);
        assert(text.skip(2) =~= rest);
    } else {
        assert(text.skip(1) =~= rest);
    }
    assert(after_two_bytes(text) == Some(rest));
    assert(digits[0] != '+') by {
        assert(is_some_digit(digits[0]));
    }
    assert((seq!['+'] + digits).skip(1) =~= digits);
    assert((seq!['+'] + digits)[0] == '+');
    assert(unsigned_digits(rest) == digits);
    if digits.len() <= 64 {
        lemma_fits(digits);
        lemma_limit(digits.len());
    }
}

/// There is no value without a text under `blockValue`, nor if the text does not begin with two
/// bytes, or holds something else than digits behind them.
pub proof fn law_no_value_without_a_price(answer: &Json, r: Option<BlockValue>)
    requires
        call_ensures(block_value, (answer,), r),
    ensures
        (forall|text: Seq<char>| !#[trigger] prices(answer@, text)) ==> r is None,
        r is Some ==> exists|mark: Seq<char>, digits: Seq<char>|
            #![trigger is_mark(mark), is_hex(digits)]
            is_mark(mark) && is_hex(digits) && (prices(answer@, mark + digits) || prices(
                answer@,
                mark + (seq!['+'] + digits),
            )),
{
    if r is Some {
        lemma_priced(answer@);
    }
}

/// A block with a value has a price.
proof fn lemma_priced(answer: JsonView)
    requires
        block_value_of(answer) is Some,
    ensures
        exists|mark: Seq<char>, digits: Seq<char>|
            #![trigger is_mark(mark), is_hex(digits)]
            is_mark(mark) && is_hex(digits) && (prices(answer, mark + digits) || prices(
                answer,
                mark + (seq!['+'] + digits),
            )),
        exists|text: Seq<char>| prices(answer, text),
{
    let result = answer.member("result"@);
    let text = result.member("blockValue"@)->Str_0;
    assert(holds(answer, "result"@, result));
    assert(prices(answer, text));
    let rest = after_two_bytes(text)->0;
    let mark = text.take(text.len() - rest.len());
    assert(text =~= mark + rest);
    assert(is_mark(mark));
    let digits = unsigned_digits(rest);
    lemma_all_digits(digits);
    assert(is_hex(digits));
    if rest.len() > 0 && rest[0] == '+' {
        assert(rest =~= seq!['+'] + digits);
    }
}

/// A text is read as a number if it is made of digits, with a plus sign before them or not, that
/// 256 bits hold, and only then.
pub proof fn law_numbers_are_read(text: &str, r: Option<BlockValue>)
    requires
        call_ensures(parse_hex, (text,), r),
    ensures
        is_hex(text@) && hex_value(text@) < value_limit() ==> (r matches Some(value) && value@
            == hex_value(text@)),
        r is Some ==> is_hex(text@) || (text@.len() > 0 && text@[0] == '+' && is_hex(text@.skip(1))),
        r is Some && is_hex(text@) ==> hex_value(text@) < value_limit(),
        text@.len() > 0 && text@[0] == '+' && is_hex(text@.skip(1)) ==> (r is Some <==> hex_value(
            text@.skip(1),
        ) < value_limit()),
        text@.len() > 0 && text@[0] == '+' ==> (r matches Some(value) ==> value@ == hex_value(
            text@.skip(1),
        )),
{
    lemma_all_digits(text@);
    if text@.len() > 0 {
        lemma_all_digits(text@.skip(1));
        lemma_digit(text@[0]);
    }
}

/// An answer is that of a node that sent one back.
proof fn lemma_body_at(outcomes: Seq<Outcome>, b: int) -> (i: int)
    requires
        0 <= b < bodies_of(outcomes).len(),
    ensures
        0 <= i < outcomes.len(),
        outcomes[i] is Ok,
        bodies_of(outcomes)[b] == outcomes[i]->Ok_0.0,
    decreases outcomes.len(),
{
    let before = outcomes.drop_last();
    if b < bodies_of(before).len() {
        lemma_body_at(before, b)
    } else {
        outcomes.len() - 1
    }
}

/// Whether an answer is JSON that prices its block at up to sixty-four digits.
pub open spec fn is_priced(body: Seq<char>, digits: Seq<char>) -> bool {
    &&& parsed_text(body) matches Some(answer)
    &&& prices(answer, "0x"@ + digits)
    &&& is_hex(digits)
    &&& digits.len() <= 64
}

/// The value of an answer is its price.
proof fn lemma_is_priced(body: Seq<char>, digits: Seq<char>)
    requires
        is_priced(body, digits),
    ensures
        value_in(parsed_text(body)) == Some(hex_value(digits)),
{
    reveal_strlit("0x");
    assert(is_mark("0x"@));
    lemma_price(parsed_text(body)->0, "0x"@, digits);
}

/// Of the answers to a request for a block, the one with the highest price is chosen, and the latest
/// of several with that price. It is passed on as it is, as a success.
pub proof fn law_highest_price_is_chosen(
    resps: &Vec<String>,
    r: Option<Reply>,
    digits: Seq<Seq<char>>,
)
    requires
        call_ensures(best_block, (resps,), r),
        resps@.len() > 0,
        digits.len() == resps@.len(),
        forall|i: int| 0 <= i < resps@.len() ==> is_priced(#[trigger] resps@[i]@, digits[i]),
    ensures
        r is Some,
        r.unwrap().1 == 200,
        exists|k: int|
            #![trigger digits[k]]
            {
                &&& 0 <= k < resps@.len()
                &&& r.unwrap().0@ == resps@[k]@
                &&& forall|i: int|
                    0 <= i < resps@.len() ==> hex_value(#[trigger] digits[i]) <= hex_value(digits[k])
                &&& forall|i: int|
                    k < i < resps@.len() ==> hex_value(#[trigger] digits[i]) < hex_value(digits[k])
            },
{
    let read = readings(texts(resps@));
    let values = values_in(read);
    let n = resps@.len() as int;
    assert forall|i: int| 0 <= i < n implies value_in(#[trigger] read[i]) == Some(
        hex_value(digits[i]),
    ) by {
        assert(is_priced(resps@[i]@, digits[i]));
        lemma_is_priced(resps@[i]@, digits[i]);
        assert(read[i] == parsed_text(resps@[i]@));
    }
    assert forall|i: int| 0 <= i < n implies values[i] == hex_value(#[trigger] digits[i]) by {
        assert(value_in(read[i]) == Some(hex_value(digits[i])));
    }
    lemma_highest(values, n);
    let k = highest(values, n);
    assert(values[k] == hex_value(digits[k]));
    assert forall|i: int| 0 <= i < n implies hex_value(#[trigger] digits[i]) <= hex_value(
        digits[k],
    ) by {
        assert(values[i] <= values[k]);
    }
    assert forall|i: int| k < i < n implies hex_value(#[trigger] digits[i]) < hex_value(
        digits[k],
    ) by {
        assert(values[i] < values[k]);
    }
}

/// The same of what nodes sent back: silent nodes do not count, and of the answers, the one with the
/// highest price is passed on as it is, as a success.
pub proof fn law_highest_outcome_is_chosen(
    outcomes: &Vec<Outcome>,
    r: Option<Reply>,
    digits: Seq<Seq<char>>,
    some: int,
)
    requires
        call_ensures(blocks_reply, (outcomes,), r),
        digits.len() == outcomes@.len(),
        0 <= some < outcomes@.len(),
        outcomes@[some] is Ok,
        forall|i: int|
            0 <= i < outcomes@.len() ==> ((#[trigger] outcomes@[i]) matches Ok(reply) ==> is_priced(
                reply.0@,
                digits[i],
            )),
    ensures
        r is Some,
        r.unwrap().1 == 200,
        exists|k: int|
            #![trigger digits[k]]
            {
                &&& 0 <= k < outcomes@.len()
                &&& outcomes@[k] matches Ok(reply)
                &&& r.unwrap().0@ == reply.0@
                &&& forall|i: int|
                    0 <= i < outcomes@.len() && (#[trigger] outcomes@[i]) is Ok ==> hex_value(digits[i])
                        <= hex_value(digits[k])
            },
{
    let bodies = bodies_of(outcomes@);
    let read = readings(texts(bodies));
    let values = values_in(read);
    let n = bodies.len() as int;
    let first = lemma_body_of(outcomes@, some);
    assert forall|b: int| 0 <= b < n implies value_in(#[trigger] read[b]) is Some by {
        let i = lemma_body_at(outcomes@, b);
        assert(is_priced(bodies[b]@, digits[i]));
        lemma_is_priced(bodies[b]@, digits[i]);
        assert(read[b] == parsed_text(bodies[b]@));
    }
    lemma_highest(values, n);
    let top = highest(values, n);
    let k = lemma_body_at(outcomes@, top);
    assert(is_priced(bodies[top]@, digits[k]));
    lemma_is_priced(bodies[top]@, digits[k]);
    assert(read[top] == parsed_text(bodies[top]@));
    assert(values[top] == hex_value(digits[k]));
    assert forall|i: int| 0 <= i < outcomes@.len() && (#[trigger] outcomes@[i]) is Ok implies hex_value(
        digits[i],
    ) <= hex_value(digits[k]) by {
        let b = lemma_body_of(outcomes@, i);
        lemma_is_priced(bodies[b]@, digits[i]);
        assert(read[b] == parsed_text(bodies[b]@));
        assert(values[b] <= values[top]);
    }
    assert(r.unwrap().0@ == outcomes@[k]->Ok_0.0@);
}

/// The best block of what nodes sent back is the best of their answers, and there is none where these
/// have none: silent nodes do not count.
pub proof fn law_outcomes_are_chosen_as_answers(
    outcomes: &Vec<Outcome>,
    r: Option<Reply>,
    resps: &Vec<String>,
    s: Option<Reply>,
)
    requires
        call_ensures(blocks_reply, (outcomes,), r),
        call_ensures(bodies, (outcomes,), *resps),
        call_ensures(best_block, (resps,), s),
    ensures
        r is Some <==> s is Some,
        r is Some ==> r.unwrap().0@ == s.unwrap().0@ && r.unwrap().1 == s.unwrap().1,
{
}

/// There is no best block without answers, nor if an answer is not JSON or has no price.
pub proof fn law_no_best_block_without_prices(resps: &Vec<String>, r: Option<Reply>, i: int)
    requires
        call_ensures(best_block, (resps,), r),
        resps@.len() == 0 || (0 <= i < resps@.len() && (parsed_text(resps@[i]@) matches Some(answer)
            ==> forall|text: Seq<char>| !#[trigger] prices(answer, text))),
    ensures
        r is None,
{
    if resps@.len() > 0 {
        let read = readings(texts(resps@));
        assert(read[i] == parsed_text(resps@[i]@));
        if value_in(read[i]) is Some {
            lemma_priced(read[i]->0);
        }
    }
}

} // verus!
