//! Texts: comparing, trimming and splitting them, and the hexadecimal digits in them.

use vstd::prelude::*;

verus! {

/// The texts that strings hold.
pub open spec fn texts(strings: Seq<String>) -> Seq<Seq<char>> {
    strings.map_values(|s: String| s@)
}

/// Whether a text begins with another.
pub open spec fn begins_with(text: Seq<char>, prefix: Seq<char>) -> bool {
    prefix.len() <= text.len() && text.take(prefix.len() as int) == prefix
}

/// Whether two texts are the same.
pub fn same_text(a: &str, b: &str) -> (r: bool)
    ensures
        r == (a@ == b@),
{
    a.to_owned() == b.to_owned()
}

/// Whether a text begins with another.
pub fn has_prefix(text: &str, prefix: &str) -> (r: bool)
    ensures
        r == begins_with(text@, prefix@),
{
    let n: usize = prefix.unicode_len();
    if n > text.unicode_len() {
        return false;
    }
    same_text(text.substring_char(0, n), prefix)
}

/// Whether Unicode counts a character as white space.
pub open spec fn is_white(c: char) -> bool {
    ||| '\u{9}' <= c <= '\u{d}'
    ||| c == ' '
    ||| c == '\u{85}'
    ||| c == '\u{a0}'
    ||| c == '\u{1680}'
    ||| '\u{2000}' <= c <= '\u{200a}'
    ||| c == '\u{2028}'
    ||| c == '\u{2029}'
    ||| c == '\u{202f}'
    ||| c == '\u{205f}'
    ||| c == '\u{3000}'
}

/// Whether Unicode counts a character as white space.
fn white(c: char) -> (r: bool)
    ensures
        r == is_white(c),
{
    ('\u{9}' <= c && c <= '\u{d}') || c == ' ' || c == '\u{85}' || c == '\u{a0}' || c == '\u{1680}'
        || ('\u{2000}' <= c && c <= '\u{200a}') || c == '\u{2028}' || c == '\u{2029}' || c
        == '\u{202f}' || c == '\u{205f}' || c == '\u{3000}'
}

/// A text without the white space at its beginning.
pub open spec fn trimmed_start(text: Seq<char>) -> Seq<char>
    decreases text.len(),
{
    if text.len() > 0 && is_white(text[0]) {
        trimmed_start(text.skip(1))
    } else {
        text
    }
}

/// A text without the white space at its end.
pub open spec fn trimmed_end(text: Seq<char>) -> Seq<char>
    decreases text.len(),
{
    if text.len() > 0 && is_white(text.last()) {
        trimmed_end(text.drop_last())
    } else {
        text
    }
}

/// A text without the white space around it.
pub open spec fn trimmed(text: Seq<char>) -> Seq<char> {
    trimmed_end(trimmed_start(text))
}

/// A text without the white space around it.
pub fn trim(text: &str) -> (r: &str)
    ensures
        r@ == trimmed(text@),
{
    let n: usize = text.unicode_len();
    let mut from: usize = 0;
    assert(text@.skip(0) =~= text@);
    while from < n && white(text.get_char(from))
        invariant
            from <= n == text@.len(),
            trimmed_start(text@) == trimmed_start(text@.skip(from as int)),
        decreases n - from,
    {
        assert(text@.skip(from as int).skip(1) =~= text@.skip(from + 1));
        from += 1;
    }
    let mut to: usize = n;
    assert(text@.subrange(from as int, n as int) =~= text@.skip(from as int));
    while from < to && white(text.get_char(to - 1))
        invariant
            from <= to <= n == text@.len(),
            trimmed(text@) == trimmed_end(text@.subrange(from as int, to as int)),
        decreases to,
    {
        assert(text@.subrange(from as int, to as int).drop_last() =~= text@.subrange(
            from as int,
            to - 1,
        ));
        to -= 1;
    }
    text.substring_char(from, to)
}

/// White space before a text does not count.
proof fn lemma_space_before(space: Seq<char>, text: Seq<char>)
    requires
        forall|i: int| 0 <= i < space.len() ==> is_white(#[trigger] space[i]),
    ensures
        trimmed_start(space + text) == trimmed_start(text),
    decreases space.len(),
{
    if space.len() == 0 {
        assert(space + text =~= text);
    } else {
        let rest = space.skip(1);
        assert forall|i: int| 0 <= i < rest.len() implies is_white(#[trigger] rest[i]) by {
            assert(rest[i] == space[i + 1]);
        }
        lemma_space_before(rest, text);
        assert((space + text)[0] == space[0]);
        assert((space + text).skip(1) =~= rest + text);
    }
}

/// White space behind a text does not count.
proof fn lemma_space_behind(text: Seq<char>, space: Seq<char>)
    requires
        forall|i: int| 0 <= i < space.len() ==> is_white(#[trigger] space[i]),
    ensures
        trimmed_end(text + space) == trimmed_end(text),
    decreases space.len(),
{
    if space.len() == 0 {
        assert(text + space =~= text);
    } else {
        let rest = space.drop_last();
        assert forall|i: int| 0 <= i < rest.len() implies is_white(#[trigger] rest[i]) by {
            assert(rest[i] == space[i]);
        }
        lemma_space_behind(text, rest);
        assert((text + space).last() == space[space.len() - 1]);
        assert((text + space).drop_last() =~= text + rest);
    }
}

/// Trimming takes away the white space around a text that neither begins nor ends with any.
pub proof fn law_trim_removes_space(before: Seq<char>, text: Seq<char>, behind: Seq<char>)
    requires
        forall|i: int| 0 <= i < before.len() ==> is_white(#[trigger] before[i]),
        forall|i: int| 0 <= i < behind.len() ==> is_white(#[trigger] behind[i]),
        text.len() > 0 ==> !is_white(text[0]) && !is_white(text.last()),
    ensures
        trimmed(before + text + behind) == text,
{
    assert(before + text + behind =~= before + (text + behind));
    lemma_space_before(before, text + behind);
    if text.len() > 0 {
        assert((text + behind)[0] == text[0]);
        lemma_space_behind(text, behind);
    } else {
        assert(text + behind =~= behind + text);
        lemma_space_before(behind, text);
    }
}

/// The pieces of a text between its commas. There is always one more of them than of commas.
pub open spec fn comma_pieces(text: Seq<char>) -> Seq<Seq<char>>
    decreases text.len(),
{
    if text.len() == 0 {
        seq![Seq::empty()]
    } else {
        let before = comma_pieces(text.drop_last());
        if text.last() == ',' {
            before.push(Seq::empty())
        } else {
            before.drop_last().push(before.last().push(text.last()))
        }
    }
}

/// Pieces of text with a comma between each two.
pub open spec fn with_commas(pieces: Seq<Seq<char>>) -> Seq<char>
    decreases pieces.len(),
{
    if pieces.len() == 0 {
        Seq::empty()
    } else if pieces.len() == 1 {
        pieces[0]
    } else {
        with_commas(pieces.drop_last()) + seq![','] + pieces.last()
    }
}

/// Splits a text at its commas.
pub fn split_commas(text: &str) -> (r: Vec<String>)
    ensures
        texts(r@) == comma_pieces(text@),
{
    let n: usize = text.unicode_len();
    let mut pieces: Vec<String> = Vec::new();
    let mut from: usize = 0;
    assert(texts(pieces@).push(text@.subrange(0, 0))
        =~= comma_pieces(text@.take(0))) by {
        assert(text@.subrange(0, 0) =~= Seq::empty());
    }
    for to in 0..n
        invariant
            from <= to <= n == text@.len(),
            comma_pieces(text@.take(to as int)) == texts(pieces@).push(
                text@.subrange(from as int, to as int),
            ),
    {
        let ghost before = texts(pieces@);
        assert(text@.take(to + 1).drop_last() =~= text@.take(to as int));
        if text.get_char(to) == ',' {
            pieces.push(text.substring_char(from, to).to_owned());
            from = to + 1;
            assert(text@.subrange(from as int, to + 1) =~= Seq::empty());
            assert(texts(pieces@) =~= comma_pieces(
                text@.take(to as int),
            ));
        } else {
            assert(text@.subrange(from as int, to + 1) =~= text@.subrange(
                from as int,
                to as int,
            ).push(text@[to as int]));
            assert(before.push(text@.subrange(from as int, to as int)).drop_last() =~= before);
        }
    }
    pieces.push(text.substring_char(from, n).to_owned());
    assert(text@.take(n as int) =~= text@);
    assert(texts(pieces@) =~= comma_pieces(text@));
    pieces
}

/// Splitting a text at its commas loses nothing: no piece holds a comma, and with the commas
/// put back between the pieces the text is whole again.
pub proof fn law_comma_pieces_rejoin(text: Seq<char>)
    ensures
        comma_pieces(text).len() > 0,
        forall|i: int|
            0 <= i < comma_pieces(text).len() ==> !(#[trigger] comma_pieces(text)[i]).contains(','),
        with_commas(comma_pieces(text)) == text,
    decreases text.len(),
{
    if text.len() > 0 {
        law_comma_pieces_rejoin(text.drop_last());
        let before = comma_pieces(text.drop_last());
        let after = comma_pieces(text);
        if text.last() == ',' {
            assert(after.drop_last() =~= before);
            assert(with_commas(after) =~= text);
        } else {
            assert(after.drop_last() =~= before.drop_last());
            assert(!before.last().contains(','));
            assert(!after.last().contains(',')) by {
                if after.last().contains(',') {
                    let k = choose|k: int| 0 <= k < after.last().len() && after.last()[k] == ',';
                    assert(before.last()[k] == ',');
                }
            }
            assert(with_commas(after) =~= with_commas(before).push(text.last()));
            assert(text =~= text.drop_last().push(text.last()));
        }
    }
}

/// The value of a hexadecimal digit.
pub open spec fn hex_digit(c: char) -> Option<u8> {
    if '0' <= c <= '9' {
        Some((c as int - '0' as int) as u8)
    } else if 'a' <= c <= 'f' {
        Some((c as int - 'a' as int + 10) as u8)
    } else if 'A' <= c <= 'F' {
        Some((c as int - 'A' as int + 10) as u8)
    } else {
        None
    }
}

/// The value of a hexadecimal digit.
pub fn digit_value(c: char) -> (r: Option<u8>)
    ensures
        r == hex_digit(c),
        r matches Some(d) ==> d < 16,
{
    if '0' <= c && c <= '9' {
        Some((c as u32 - 48) as u8)
    } else if 'a' <= c && c <= 'f' {
        Some((c as u32 - 97 + 10) as u8)
    } else if 'A' <= c && c <= 'F' {
        Some((c as u32 - 65 + 10) as u8)
    } else {
        None
    }
}

} // verus!
