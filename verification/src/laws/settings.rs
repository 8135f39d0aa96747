//! What is read from the command line and from files, and what is made of it.

use vstd::prelude::*;

use crate::auth::{
    bearer, carries_issued, clock_read, fresh_bearer, is_issued, make_jwt, opened_token,
    secret_digits, BadSecret, Claims, JwtKey, OpenToken,
};
use crate::config::{log_level, nodes_named, LogLevel};
use crate::json::{members_of, Json, JsonView};
use crate::laws::blocks::{is_digit, is_some_digit, lemma_digit};
use crate::laws::{holds, spoken};
use crate::node::Node;
use crate::text::{
    begins_with, comma_pieces, hex_digit, is_white, law_comma_pieces_rejoin, split_commas,
    texts, trim, trimmed, trimmed_end, trimmed_start, with_commas,
};

verus! {

/// Whether a text is white space alone.
pub open spec fn is_blank(text: Seq<char>) -> bool {
    forall|i: int| 0 <= i < text.len() ==> is_white(#[trigger] text[i])
}

/// White space is what Unicode counts as such.
pub proof fn law_white_space(c: char)
    ensures
        is_white(c) <==> {
            let n = c as int;
            ||| 9 <= n <= 13
            ||| n == 32 || n == 133 || n == 160 || n == 5760
            ||| 8192 <= n <= 8202
            ||| n == 8232 || n == 8233 || n == 8239 || n == 8287 || n == 12288
        },
{
}

/// Trimming takes the white space off both ends of a text and keeps the rest.
pub proof fn law_trim_keeps_the_rest(text: &str, r: &str)
    requires
        call_ensures(trim, (text,), r),
    ensures
        exists|before: Seq<char>, behind: Seq<char>|
            #![trigger is_blank(before), is_blank(behind)]
            is_blank(before) && is_blank(behind) && text@ == before + r@ + behind,
        r@.len() > 0 ==> !is_white(r@[0]) && !is_white(r@[r@.len() - 1]),
{
    lemma_trimmed(text@);
}

/// What is taken off the beginning is white space.
proof fn lemma_trimmed_start(text: Seq<char>) -> (before: Seq<char>)
    ensures
        is_blank(before),
        text == before + trimmed_start(text),
        trimmed_start(text).len() > 0 ==> !is_white(trimmed_start(text)[0]),
    decreases text.len(),
{
    if text.len() > 0 && is_white(text[0]) {
        let rest = lemma_trimmed_start(text.skip(1));
        let before = seq![text[0]] + rest;
        assert(text =~= seq![text[0]] + (rest + trimmed_start(text.skip(1)))) by {
            assert(text =~= seq![text[0]] + text.skip(1));
        }
        assert(text =~= before + trimmed_start(text.skip(1)));
        assert forall|i: int| 0 <= i < before.len() implies is_white(#[trigger] before[i]) by {
            if i > 0 {
                assert(before[i] == rest[i - 1]);
            }
        }
        before
    } else {
        assert(text =~= Seq::empty() + text);
        Seq::empty()
    }
}

/// What is taken off the end is white space.
proof fn lemma_trimmed_end(text: Seq<char>) -> (behind: Seq<char>)
    ensures
        is_blank(behind),
        text == trimmed_end(text) + behind,
        trimmed_end(text).len() > 0 ==> !is_white(trimmed_end(text).last()),
    decreases text.len(),
{
    if text.len() > 0 && is_white(text.last()) {
        let rest = lemma_trimmed_end(text.drop_last());
        let behind = rest.push(text.last());
        assert(text =~= (trimmed_end(text.drop_last()) + rest).push(text.last())) by {
            assert(text =~= text.drop_last().push(text.last()));
        }
        assert(text =~= trimmed_end(text.drop_last()) + behind);
        assert forall|i: int| 0 <= i < behind.len() implies is_white(#[trigger] behind[i]) by {
            if i < rest.len() {
                assert(behind[i] == rest[i]);
            }
        }
        behind
    } else {
        assert(text =~= text + Seq::empty());
        Seq::empty()
    }
}

/// What is taken off both ends is white space.
proof fn lemma_trimmed(text: Seq<char>) -> (ends: (Seq<char>, Seq<char>))
    ensures
        is_blank(ends.0),
        is_blank(ends.1),
        text == ends.0 + trimmed(text) + ends.1,
        trimmed(text).len() > 0 ==> !is_white(trimmed(text)[0]) && !is_white(trimmed(text).last()),
{
    let before = lemma_trimmed_start(text);
    let start = trimmed_start(text);
    let behind = lemma_trimmed_end(start);
    assert(text =~= before + trimmed(text) + behind);
    if trimmed(text).len() > 0 {
        assert(start[0] == trimmed(text)[0]);
    }
    (before, behind)
}

/// A secret is read from pairs of hexadecimal digits, in either case, with white space around them and
/// `0x` before them or not: each pair stands for a byte, its first digit counting sixteen times as much.
pub proof fn law_secret_is_read(
    text: &str,
    r: Result<JwtKey, BadSecret>,
    before: Seq<char>,
    digits: Seq<char>,
    behind: Seq<char>,
)
    requires
        call_ensures(JwtKey::from_file_text, (text,), r),
        is_blank(before),
        is_blank(behind),
        forall|i: int| 0 <= i < digits.len() ==> is_some_digit(#[trigger] digits[i]),
        text@ == before + digits + behind || text@ == before + ("0x"@ + digits) + behind,
    ensures
        r is Ok <==> digits.len() % 2 == 0,
        r matches Ok(key) ==> 2 * key.secret@.len() == digits.len(),
        r matches Ok(key) ==> forall|i: int, first: int, second: int|
            #![trigger is_digit(digits[2 * i], first), is_digit(digits[2 * i + 1], second)]
            0 <= i < key.secret@.len() && is_digit(digits[2 * i], first) && is_digit(
                digits[2 * i + 1],
                second,
            ) ==> key.secret@[i] == 16 * first + second,
{
    assert forall|i: int| 0 <= i < digits.len() implies hex_digit(#[trigger] digits[i]) is Some by {
        lemma_digit(digits[i]);
    }
    crate::auth::law_secret_spellings(before, digits, behind);
    assert(secret_digits(text@) == digits);
    if let Ok(key) = r {
        assert forall|i: int, first: int, second: int|
            #![trigger is_digit(digits[2 * i], first), is_digit(digits[2 * i + 1], second)]
            0 <= i < key.secret@.len() && is_digit(digits[2 * i], first) && is_digit(
                digits[2 * i + 1],
                second,
            ) implies key.secret@[i] == 16 * first + second by {
            lemma_digit(digits[2 * i]);
            lemma_digit(digits[2 * i + 1]);
        }
    }
}

/// Nothing else is read as a secret.
pub proof fn law_nothing_else_is_a_secret(text: &str, r: Result<JwtKey, BadSecret>)
    requires
        call_ensures(JwtKey::from_file_text, (text,), r),
        r is Ok,
    ensures
        exists|before: Seq<char>, digits: Seq<char>, behind: Seq<char>|
            #![trigger is_blank(before), is_blank(behind), is_pairs(digits)]
            is_blank(before) && is_blank(behind) && is_pairs(digits) && (text@ == before + digits
                + behind || text@ == before + ("0x"@ + digits) + behind),
{
    reveal_strlit("0x");
    let ends = lemma_trimmed(text@);
    let digits = secret_digits(text@);
    assert forall|i: int| 0 <= i < digits.len() implies is_some_digit(#[trigger] digits[i]) by {
        assert(hex_digit(digits[i]) is Some);
        lemma_digit(digits[i]);
    }
    assert(is_pairs(digits));
    if begins_with(trimmed(text@), "0x"@) {
        assert(trimmed(text@) =~= "0x"@ + digits);
    }
    assert(is_blank(ends.0) && is_blank(ends.1));
}

/// Whether a text is made of pairs of hexadecimal digits.
pub open spec fn is_pairs(digits: Seq<char>) -> bool {
    digits.len() % 2 == 0 && forall|i: int|
        0 <= i < digits.len() ==> is_some_digit(#[trigger] digits[i])
}

/// A token that was signed is opened with the same secret: it names HS256, and its one claim is the
/// time of issue that was signed.
pub proof fn law_signed_token_opens(
    jwt_key: &JwtKey,
    claims: &Claims,
    signed: Result<String, jsonwebtoken::errors::Error>,
    opener: &JwtKey,
    token: &str,
    opened: Option<OpenToken>,
)
    requires
        call_ensures(JwtKey::sign, (jwt_key, claims), signed),
        token@ == signed->Ok_0@,
        opener.secret@ == jwt_key.secret@,
        call_ensures(JwtKey::open, (opener, token), opened),
    ensures
        signed is Ok,
        opened matches Some(found) && found.algorithm@ == "HS256"@ && found.claims@
            == JsonView::Object(map!["iat"@ => JsonView::Integer(claims.iat as int)]),
{
}

/// A made token is opened with the same secret: it names HS256, and its one claim is a time that the
/// clock came to.
pub proof fn law_made_token_opens(
    jwt_key: &JwtKey,
    made: Result<String, jsonwebtoken::errors::Error>,
    token: &str,
    opened: Option<OpenToken>,
)
    requires
        call_ensures(make_jwt, (jwt_key,), made),
        token@ == made->Ok_0@,
        call_ensures(JwtKey::open, (jwt_key, token), opened),
    ensures
        made is Ok,
        opened matches Some(found) && found.algorithm@ == "HS256"@ && exists|iat: i64|
            #[trigger] clock_read(iat) && iat >= 0 && found.claims@ == JsonView::Object(
                map!["iat"@ => JsonView::Integer(iat as int)],
            ),
{
    lemma_issued(token@, jwt_key.secret@);
}

/// An issued token holds the time that it was issued at.
proof fn lemma_issued(token: Seq<char>, secret: Seq<u8>)
    requires
        is_issued(token, secret),
    ensures
        exists|iat: i64|
            #[trigger] clock_read(iat) && iat >= 0 && opened_token(token, secret) == Some(
                ("HS256"@, JsonView::Object(map!["iat"@ => JsonView::Integer(iat as int)])),
            ),
{
    let iat = choose|iat: i64|
        {
            &&& clock_read(iat)
            &&& iat >= 0
            &&& token == crate::auth::signed_token((#[trigger] (Claims { iat }).object()), secret)
            &&& opened_token(token, secret) == Some(("HS256"@, (Claims { iat }).object()))
        };
    assert(clock_read(iat));
}

/// A header with a token that is dated by the clock is `Bearer ` and that token: opened with the
/// secret, it names HS256, and its one claim is a time that the clock came to.
pub proof fn law_carried_token_opens(header: Seq<char>, secret: Seq<u8>)
    requires
        carries_issued(header, secret),
    ensures
        header.len() >= 7,
        header.take(7) == "Bearer "@,
        exists|iat: i64|
            #[trigger] clock_read(iat) && iat >= 0 && opened_token(header.skip(7), secret) == Some(
                ("HS256"@, JsonView::Object(map!["iat"@ => JsonView::Integer(iat as int)])),
            ),
{
    reveal_strlit("Bearer ");
    let token = choose|token: Seq<char>|
        header == "Bearer "@ + token && #[trigger] is_issued(token, secret);
    assert(header.take(7) =~= "Bearer "@);
    assert(header.skip(7) =~= token);
    lemma_issued(token, secret);
}

/// A fresh header carries a token that is dated by the clock, and `Bearer ` stands before any token.
pub proof fn law_fresh_header(jwt_key: &JwtKey, fresh: String, token: &str, given: String)
    requires
        call_ensures(fresh_bearer, (jwt_key,), fresh),
        call_ensures(bearer, (token,), given),
    ensures
        carries_issued(fresh@, jwt_key.secret@),
        given@ == "Bearer "@ + token@,
{
}

/// Every level of logging has one name, and what is no name of another stands for `Info`.
pub proof fn law_levels_have_names(name: &str, r: LogLevel)
    requires
        call_ensures(log_level, (name,), r),
    ensures
        r == LogLevel::Trace <==> name@ == "trace"@,
        r == LogLevel::Debug <==> name@ == "debug"@,
        r == LogLevel::Warn <==> name@ == "warn"@,
        r == LogLevel::Error <==> name@ == "error"@,
{
    reveal_strlit("trace");
    reveal_strlit("debug");
    reveal_strlit("warn");
    reveal_strlit("error");
    assert("trace"@[0] == 't' && "debug"@[0] == 'd' && "warn"@[0] == 'w' && "error"@[0] == 'e');
}

/// Splitting a text at its commas gives the pieces between them, in their order: none holds a comma,
/// and with commas between them they are the text again.
pub proof fn law_pieces_are_between_commas(text: &str, r: Vec<String>)
    requires
        call_ensures(split_commas, (text,), r),
    ensures
        r@.len() > 0,
        with_commas(spoken(r@)) == text@,
        forall|i: int| 0 <= i < r@.len() ==> !(#[trigger] r@[i]@).contains(','),
{
    law_comma_pieces_rejoin(text@);
    assert(texts(r@) =~= spoken(r@));
    assert forall|i: int| 0 <= i < r@.len() implies !(#[trigger] r@[i]@).contains(',') by {
        assert(comma_pieces(text@)[i] == r@[i]@);
    }
}

/// The nodes that are named are the pieces of the list between its commas, in their order, and none of
/// them was checked.
pub proof fn law_nodes_are_named(list: &str, r: Vec<Node>)
    requires
        call_ensures(nodes_named, (list,), r),
    ensures
        r@.len() > 0,
        with_commas(r@.map_values(|node: Node| node.url@)) == list@,
        forall|i: int|
            0 <= i < r@.len() ==> !(#[trigger] r@[i]).url@.contains(',') && r@[i].status == 4
                && r@[i].resp_time == 0,
{
    law_comma_pieces_rejoin(list@);
    let pieces = comma_pieces(list@);
    assert forall|i: int| 0 <= i < r@.len() implies !(#[trigger] r@[i]).url@.contains(',')
        && r@[i].status == 4 && r@[i].resp_time == 0 by {
        assert(r@.map_values(|node: Node| node.url@)[i] == pieces[i]);
    }
}

/// An object that is built from pairs has the members that the pairs name, and no other. Of several
/// pairs with one key, the last counts.
pub proof fn law_built_object_has_its_members(
    pairs: Vec<(&str, Json)>,
    r: Json,
    i: int,
)
    requires
        call_ensures(Json::object, (pairs,), r),
        0 <= i < pairs@.len(),
        forall|j: int| i < j < pairs@.len() ==> (#[trigger] pairs@[j]).0@ != pairs@[i].0@,
    ensures
        holds(r@, pairs@[i].0@, pairs@[i].1@),
{
    let views = pairs@.map_values(|pair: (&str, Json)| (pair.0@, pair.1@));
    assert forall|j: int| i < j < views.len() implies (#[trigger] views[j]).0 != views[i].0 by {
        assert(pairs@[j].0@ != pairs@[i].0@);
    }
    lemma_last_pair_counts(views, i);
}

/// Of several pairs with one key, the last counts.
proof fn lemma_last_pair_counts(pairs: Seq<(Seq<char>, JsonView)>, i: int)
    requires
        0 <= i < pairs.len(),
        forall|j: int| i < j < pairs.len() ==> (#[trigger] pairs[j]).0 != pairs[i].0,
    ensures
        members_of(pairs).dom().contains(pairs[i].0),
        members_of(pairs)[pairs[i].0] == pairs[i].1,
    decreases pairs.len(),
{
    if i < pairs.len() - 1 {
        assert(pairs[pairs.len() - 1].0 != pairs[i].0);
        let before = pairs.drop_last();
        assert forall|j: int| i < j < before.len() implies (#[trigger] before[j]).0 != before[i].0 by {
            assert(before[j] == pairs[j]);
        }
        lemma_last_pair_counts(before, i);
    }
}

} // verus!
