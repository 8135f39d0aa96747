//! The choice among the blocks that several nodes built.

use vstd::prelude::*;

use crate::json::{content, contents, member, parsed_text, read, text_of, Json, JsonView};
use crate::reply::{bodies, bodies_of, Outcome, Reply, OK};
use crate::text::{digit_value, hex_digit, texts};

verus! {

/// The value of a block: a number of 256 bits, in two halves.
#[derive(Debug, Clone, Copy, PartialEq, Eq, Structural)]
pub struct BlockValue {
    /// The higher half.
    pub high: u128,
    /// The lower half.
    pub low: u128,
}

impl View for BlockValue {
    type V = nat;

    open spec fn view(&self) -> nat {
        self.high as nat * 0x1_0000000000000000_0000000000000000nat + self.low as nat
    }
}

/// The number that a value stands for, where there is one.
pub open spec fn number(value: Option<BlockValue>) -> Option<nat> {
    match value {
        Some(value) => Some(value@),
        None => None,
    }
}

impl BlockValue {
    /// The value zero.
    pub fn zero() -> (r: BlockValue)
        ensures
            r@ == 0,
    {
        BlockValue { high: 0, low: 0 }
    }

    /// Whether the value is as high as another.
    pub fn at_least(&self, other: &BlockValue) -> (r: bool)
        ensures
            r == (self@ >= other@),
    {
        self.high > other.high || (self.high == other.high && self.low >= other.low)
    }

    /// The value with one more hexadecimal digit behind it, if 256 bits can hold it.
    pub fn with_digit(&self, digit: u8) -> (r: Option<BlockValue>)
        requires
            digit < 16,
        ensures
            match r {
                Some(value) => value@ == self@ * 16 + digit as nat && value@ < value_limit(),
                None => self@ * 16 + digit as nat >= value_limit(),
            },
    {
        // What the highest of a half's 32 digits counts.
        let place: u128 = 0x1000_0000_0000_0000_0000_0000_0000_0000;
        if self.high >= place {
            None
        } else {
            Some(
                BlockValue {
                    high: self.high * 16 + self.low / place,
                    low: (self.low % place) * 16 + digit as u128,
                },
            )
        }
    }
}

/// What follows the first two bytes of a text in UTF-8, if a character ends there.
pub open spec fn after_two_bytes(text: Seq<char>) -> Option<Seq<char>> {
    if text.len() >= 2 && text[0] <= '\u{7f}' && text[1] <= '\u{7f}' {
        Some(text.skip(2))
    } else if text.len() >= 1 && '\u{80}' <= text[0] <= '\u{7ff}' {
        Some(text.skip(1))
    } else {
        None
    }
}

/// The number that hexadecimal digits stand for.
pub open spec fn hex_value(digits: Seq<char>) -> nat
    decreases digits.len(),
{
    if digits.len() == 0 {
        0
    } else {
        hex_value(digits.drop_last()) * 16 + hex_digit(digits.last())->0 as nat
    }
}

/// The digits of a number, without the sign that it may begin with.
pub open spec fn unsigned_digits(text: Seq<char>) -> Seq<char> {
    if text.len() > 0 && text[0] == '+' {
        text.skip(1)
    } else {
        text
    }
}

/// The first number that 256 bits cannot hold.
pub open spec fn value_limit() -> nat {
    0x1_0000000000000000_0000000000000000_0000000000000000_0000000000000000nat
}

/// The number that a text writes in hexadecimal digits, if there is one and 256 bits can hold it.
pub open spec fn hex_number(text: Seq<char>) -> Option<nat> {
    let digits = unsigned_digits(text);
    if digits.len() > 0 && (forall|i: int|
        0 <= i < digits.len() ==> hex_digit(#[trigger] digits[i]) is Some) && hex_value(digits)
        < value_limit() {
        Some(hex_value(digits))
    } else {
        None
    }
}

/// The value of the block in a node's answer: a number in hexadecimal digits behind two bytes that
/// mark it as such.
pub open spec fn block_value_of(answer: JsonView) -> Option<nat> {
    match answer.member("result"@).member("blockValue"@).text() {
        None => None,
        Some(text) => match after_two_bytes(text) {
            None => None,
            Some(digits) => hex_number(digits),
        },
    }
}

/// The value of the block in what an answer was read as.
pub open spec fn value_in(reading: Option<JsonView>) -> Option<nat> {
    match reading {
        None => None,
        Some(answer) => block_value_of(answer),
    }
}

/// Of the first `n` values, the position of the highest. Among equals the latest counts.
pub open spec fn highest(values: Seq<nat>, n: int) -> int
    decreases n,
{
    if n <= 1 {
        0
    } else {
        let best = highest(values, n - 1);
        if values[n - 1] >= values[best] {
            n - 1
        } else {
            best
        }
    }
}

/// There are answers, and each of them holds a block with a value.
pub open spec fn all_valued(readings: Seq<Option<JsonView>>) -> bool {
    &&& readings.len() > 0
    &&& forall|i: int| 0 <= i < readings.len() ==> value_in(#[trigger] readings[i]) is Some
}

/// The values of the blocks in the answers.
pub open spec fn values_in(readings: Seq<Option<JsonView>>) -> Seq<nat> {
    readings.map_values(|reading: Option<JsonView>| value_in(reading)->0)
}

/// What answers are read as.
pub open spec fn readings(answers: Seq<Seq<char>>) -> Seq<Option<JsonView>> {
    answers.map_values(|text: Seq<char>| parsed_text(text))
}

/// The digits of a longer number are worth at least as much.
proof fn lemma_prefix_value(digits: Seq<char>, n: int)
    requires
        0 <= n <= digits.len(),
    ensures
        hex_value(digits.take(n)) <= hex_value(digits),
    decreases digits.len() - n,
{
    if n < digits.len() {
        lemma_prefix_value(digits, n + 1);
        assert(digits.take(n + 1).drop_last() =~= digits.take(n));
    } else {
        assert(digits.take(n) =~= digits);
    }
}

/// Reads a number in hexadecimal digits, which may begin with a plus sign.
pub fn parse_hex(text: &str) -> (r: Option<BlockValue>)
    ensures
        number(r) == hex_number(text@),
{
    let n: usize = text.unicode_len();
    let from: usize = if n > 0 && text.get_char(0) == '+' {
        1
    } else {
        0
    };
    let ghost digits = unsigned_digits(text@);
    assert(digits =~= text@.skip(from as int));
    if from == n {
        return None;
    }
    let mut value: BlockValue = BlockValue::zero();
    assert(digits.take(0) =~= Seq::empty());
    for i in from..n
        invariant
            from < n == text@.len(),
            from <= i,
            digits == unsigned_digits(text@),
            digits == text@.skip(from as int),
            value@ == hex_value(digits.take(i - from)),
            value@ < value_limit(),
            forall|j: int| 0 <= j < i - from ==> hex_digit(#[trigger] digits[j]) is Some,
    {
        assert(digits[i - from] == text@[i as int]);
        assert(digits.take(i - from + 1).drop_last() =~= digits.take(i - from));
        match digit_value(text.get_char(i)) {
            None => {
                return None;
            },
            Some(digit) => match value.with_digit(digit) {
                None => {
                    proof {
                        lemma_prefix_value(digits, i - from + 1);
                    }
                    return None;
                },
                Some(longer) => {
                    value = longer;
                },
            },
        }
    }
    assert(digits.take(n - from) =~= digits);
    Some(value)
}

/// The value of the block in a node's answer.
pub fn block_value(answer: &Json) -> (r: Option<BlockValue>)
    ensures
        number(r) == block_value_of(answer@),
{
    match text_of(member(member(&answer.value, "result"), "blockValue")) {
        None => None,
        Some(text) => {
            let n: usize = text.unicode_len();
            if n >= 2 && text.get_char(0) <= '\u{7f}' && text.get_char(1) <= '\u{7f}' {
                parse_hex(text.substring_char(2, n))
            } else if n >= 1 && text.get_char(0) >= '\u{80}' && text.get_char(0) <= '\u{7ff}' {
                parse_hex(text.substring_char(1, n))
            } else {
                None
            }
        },
    }
}

/// The answer with the block of the highest value, given what the answers were read as. Among
/// equals it is the latest. There is none if there are no answers, or if one of them holds no block
/// with a value.
pub fn choose_block(resps: &Vec<String>, replies: &Vec<Option<Json>>) -> (r: Option<Reply>)
    requires
        resps.len() == replies.len(),
    ensures
        match r {
            Some(reply) => {
                &&& all_valued(contents(replies@))
                &&& reply.0@ == resps@[highest(values_in(contents(replies@)), resps@.len() as int)]@
                &&& reply.1 == OK
            },
            None => !all_valued(contents(replies@)),
        },
{
    let ghost readings = contents(replies@);
    let ghost values = values_in(readings);
    if resps.len() == 0 {
        return None;
    }
    let mut top: BlockValue = BlockValue::zero();
    let mut best: usize = 0;
    for i in 0..resps.len()
        invariant
            resps.len() == replies.len(),
            readings == contents(replies@),
            values == values_in(readings),
            forall|j: int| 0 <= j < i ==> value_in(#[trigger] readings[j]) is Some,
            i == 0 ==> top@ == 0,
            i > 0 ==> best < i && best == highest(values, i as int) && top@
                == values[best as int],
    {
        assert(readings[i as int] == content(replies@[i as int]));
        let value: Option<BlockValue> = match &replies[i] {
            None => None,
            Some(answer) => block_value(answer),
        };
        match value {
            None => {
                return None;
            },
            Some(value) => if value.at_least(&top) {
                top = value;
                best = i;
            },
        }
    }
    Some((resps[best].clone(), OK))
}

/// The answer with the block of the highest value.
pub fn best_block(resps: &Vec<String>) -> (r: Option<Reply>)
    ensures
        match r {
            Some(reply) => {
                &&& all_valued(readings(texts(resps@)))
                &&& reply.0@ == resps@[highest(
                    values_in(readings(texts(resps@))),
                    resps@.len() as int,
                )]@
                &&& reply.1 == OK
            },
            None => !all_valued(readings(texts(resps@))),
        },
{
    let mut replies: Vec<Option<Json>> = Vec::new();
    for i in 0..resps.len()
        invariant
            replies.len() == i,
            forall|j: int|
                0 <= j < i ==> content(#[trigger] replies@[j]) == parsed_text(resps@[j]@),
    {
        replies.push(read(resps[i].as_str()));
    }
    assert(contents(replies@) =~= readings(texts(resps@)));
    choose_block(resps, &replies)
}

/// The reply to a request for a block that several nodes were asked for, given what they sent back:
/// of the answers among it, the one with the block of the highest value.
pub fn blocks_reply(outcomes: &Vec<Outcome>) -> (r: Option<Reply>)
    ensures
        match r {
            Some(reply) => {
                &&& all_valued(readings(texts(bodies_of(outcomes@))))
                &&& reply.0@ == bodies_of(outcomes@)[highest(
                    values_in(readings(texts(bodies_of(outcomes@)))),
                    bodies_of(outcomes@).len() as int,
                )]@
                &&& reply.1 == OK
            },
            None => !all_valued(readings(texts(bodies_of(outcomes@)))),
        },
{
    best_block(&bodies(outcomes))
}

/// The highest of the first `n` values is one of them, and the last that none of them beats.
pub(crate) proof fn lemma_highest(values: Seq<nat>, n: int)
    requires
        1 <= n <= values.len(),
    ensures
        0 <= highest(values, n) < n,
        forall|i: int| 0 <= i < n ==> #[trigger] values[i] <= values[highest(values, n)],
        forall|i: int|
            highest(values, n) < i < n ==> #[trigger] values[i] < values[highest(values, n)],
    decreases n,
{
    if n > 1 {
        lemma_highest(values, n - 1);
    }
}

/// No node built a better block than the one that is chosen, and none that answered later built
/// one as good.
pub proof fn law_chosen_block_is_best(readings: Seq<Option<JsonView>>)
    requires
        all_valued(readings),
    ensures
        0 <= highest(values_in(readings), readings.len() as int) < readings.len(),
        forall|i: int|
            0 <= i < readings.len() ==> value_in(#[trigger] readings[i])->0 <= value_in(
                readings[highest(values_in(readings), readings.len() as int)],
            )->0,
        forall|i: int|
            highest(values_in(readings), readings.len() as int) < i < readings.len() ==> value_in(
                #[trigger] readings[i],
            )->0 < value_in(
                readings[highest(values_in(readings), readings.len() as int)],
            )->0,
{
    let values = values_in(readings);
    let n = readings.len() as int;
    lemma_highest(values, n);
    assert forall|i: int| 0 <= i < n implies value_in(#[trigger] readings[i])->0 <= value_in(
        readings[highest(values, n)],
    )->0 by {
        assert(values[i] <= values[highest(values, n)]);
    }
    assert forall|i: int| highest(values, n) < i < n implies value_in(#[trigger] readings[i])->0
        < value_in(readings[highest(values, n)])->0 by {
        assert(values[i] < values[highest(values, n)]);
    }
}

} // verus!
