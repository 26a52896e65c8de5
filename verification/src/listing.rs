//! The text form of a knapsack: one line for the weight limit, one line per
//! item.
//!
//! Spaces mean nothing. A line is cut into fields at commas. A line of three
//! or more fields describes an item: its second field is the weight, its
//! third the value. A line of two fields gives the weight limit in its
//! second field. Other lines say nothing.

use vstd::prelude::*;

verus! {

/// What a line of a listing says.
#[derive(Clone, Copy, Debug, PartialEq, Eq, Structural)]
pub enum Line {
    /// An item of the given weight and value.
    Item(usize, usize),
    /// The weight the knapsack holds.
    Limit(usize),
    /// An item line whose weight or value is no number; it is passed over.
    Garbled,
    /// A limit line whose limit is no number; the listing cannot be used.
    BadLimit,
    /// A line of a single field; it says nothing.
    Blank,
}

/// The line without its spaces.
pub open spec fn squeezed(line: Seq<u8>) -> Seq<u8>
    decreases line.len(),
{
    if line.len() == 0 {
        Seq::empty()
    } else if line.last() == 32 {
        squeezed(line.drop_last())
    } else {
        squeezed(line.drop_last()).push(line.last())
    }
}

/// The pieces of a text, cut at every separator. A text without a separator
/// is one piece.
pub open spec fn pieces(text: Seq<u8>, separator: u8) -> Seq<Seq<u8>>
    decreases text.len(),
{
    if text.len() == 0 {
        seq![Seq::<u8>::empty()]
    } else {
        let before = pieces(text.drop_last(), separator);
        if text.last() == separator {
            before.push(Seq::<u8>::empty())
        } else {
            before.drop_last().push(before.last().push(text.last()))
        }
    }
}

/// The fields of a text, cut at the commas.
pub open spec fn fields(text: Seq<u8>) -> Seq<Seq<u8>> {
    pieces(text, 44)
}

/// A line as it was cut off at a line feed: without the carriage return that
/// may precede the line feed.
pub open spec fn unreturned(piece: Seq<u8>) -> Seq<u8> {
    if piece.len() > 0 && piece.last() == 13 {
        piece.drop_last()
    } else {
        piece
    }
}

/// The lines of a text. Every line feed ends a line, and a carriage return
/// just before it belongs to the line end. What follows the last line feed
/// is a line too, unless nothing follows.
pub open spec fn lines_of(content: Seq<u8>) -> Seq<Seq<u8>> {
    let cut = pieces(content, 10);
    let ended = cut.drop_last().map_values(|piece: Seq<u8>| unreturned(piece));
    if cut.last().len() == 0 {
        ended
    } else {
        ended.push(cut.last())
    }
}

/// Whether every symbol is a decimal digit.
pub open spec fn all_digits(text: Seq<u8>) -> bool {
    forall|i: int| 0 <= i < text.len() ==> 48 <= #[trigger] text[i] <= 57
}

/// The number a text of digits spells.
pub open spec fn digits_value(text: Seq<u8>) -> nat
    decreases text.len(),
{
    if text.len() == 0 {
        0
    } else {
        digits_value(text.drop_last()) * 10 + (text.last() - 48) as nat
    }
}

/// The digits of a field: the field itself, without a leading plus sign.
pub open spec fn unsigned(field: Seq<u8>) -> Seq<u8> {
    if field.len() > 0 && field[0] == 43 {
        field.subrange(1, field.len() as int)
    } else {
        field
    }
}

/// The number a field spells: one or more digits, with or without a plus sign
/// in front, that stay within the machine's range. Any other field spells
/// none.
pub open spec fn number(field: Seq<u8>) -> Option<usize> {
    let digits = unsigned(field);
    if digits.len() > 0 && all_digits(digits) && digits_value(digits) <= usize::MAX {
        Some(digits_value(digits) as usize)
    } else {
        None
    }
}

/// What a line says.
pub open spec fn reading(line: Seq<u8>) -> Line {
    let parts = fields(squeezed(line));
    if parts.len() > 2 {
        match (number(parts[1]), number(parts[2])) {
            (Some(weight), Some(value)) => Line::Item(weight, value),
            _ => Line::Garbled,
        }
    } else if parts.len() == 2 {
        match number(parts[1]) {
            Some(limit) => Line::Limit(limit),
            None => Line::BadLimit,
        }
    } else {
        Line::Blank
    }
}

/// The texts a list of byte strings holds.
pub open spec fn texts(strings: Seq<Vec<u8>>) -> Seq<Seq<u8>> {
    strings.map_values(|string: Vec<u8>| string@)
}

/// Whether none of the lines is a limit line with a bad limit.
pub open spec fn usable(lines: Seq<Seq<u8>>) -> bool {
    forall|i: int| 0 <= i < lines.len() ==> reading(#[trigger] lines[i]) != Line::BadLimit
}

/// The limit the lines give: that of the last limit line, or zero without
/// one.
pub open spec fn stated_limit(lines: Seq<Seq<u8>>) -> usize
    decreases lines.len(),
{
    if lines.len() == 0 {
        0
    } else {
        match reading(lines.last()) {
            Line::Limit(limit) => limit,
            _ => stated_limit(lines.drop_last()),
        }
    }
}

/// The items the lines describe, in order, as pairs of weight and value.
pub open spec fn stated_items(lines: Seq<Seq<u8>>) -> Seq<(usize, usize)>
    decreases lines.len(),
{
    if lines.len() == 0 {
        Seq::empty()
    } else {
        match reading(lines.last()) {
            Line::Item(weight, value) => stated_items(lines.drop_last()).push((weight, value)),
            _ => stated_items(lines.drop_last()),
        }
    }
}

/// Reading more digits never gives a smaller number.
proof fn lemma_digits_grow(text: Seq<u8>, shorter: int)
    requires
        0 <= shorter <= text.len(),
        all_digits(text),
    ensures
        digits_value(text.subrange(0, shorter)) <= digits_value(text),
    decreases text.len() - shorter,
{
    if shorter < text.len() {
        lemma_digits_grow(text, shorter + 1);
        assert(text.subrange(0, shorter + 1).drop_last() =~= text.subrange(0, shorter));
    } else {
        assert(text.subrange(0, shorter) =~= text);
    }
}

/// Removes the spaces of a line.
pub fn squeeze(line: &Vec<u8>) -> (text: Vec<u8>)
    ensures
        text@ == squeezed(line@),
{
    let mut text: Vec<u8> = Vec::new();
    let mut position: usize = 0;
    proof {
        assert(line@.subrange(0, 0) =~= Seq::empty());
    }
    while position < line.len()
        invariant
            position <= line@.len(),
            text@ == squeezed(line@.subrange(0, position as int)),
        decreases line@.len() - position,
    {
        proof {
            assert(line@.subrange(0, position + 1).drop_last() =~= line@.subrange(0, position as int));
        }
        if line[position] != 32 {
            text.push(line[position]);
        }
        position = position + 1;
    }
    proof {
        assert(line@.subrange(0, position as int) =~= line@);
    }
    text
}

/// Cuts a text into its pieces at every separator.
pub fn split(text: &Vec<u8>, separator: u8) -> (parts: Vec<Vec<u8>>)
    ensures
        texts(parts@) == pieces(text@, separator),
        parts@.len() >= 1,
{
    let mut parts: Vec<Vec<u8>> = Vec::new();
    let mut current: Vec<u8> = Vec::new();
    let mut position: usize = 0;
    proof {
        assert(text@.subrange(0, 0) =~= Seq::empty());
        assert(texts(parts@).push(current@) =~= pieces(text@.subrange(0, 0), separator));
    }
    while position < text.len()
        invariant
            position <= text@.len(),
            texts(parts@).push(current@) == pieces(text@.subrange(0, position as int), separator),
        decreases text@.len() - position,
    {
        let ghost before = pieces(text@.subrange(0, position as int), separator);
        proof {
            assert(text@.subrange(0, position + 1).drop_last() =~= text@.subrange(0, position as int));
            assert(before.drop_last() =~= texts(parts@));
            assert(before.last() == current@);
        }
        if text[position] == separator {
            let ghost done = parts@;
            parts.push(current);
            current = Vec::new();
            proof {
                assert(texts(parts@) =~= texts(done).push(parts@.last()@));
                assert(texts(parts@).push(current@) =~= before.push(Seq::<u8>::empty()));
            }
        } else {
            current.push(text[position]);
        }
        position = position + 1;
    }
    proof {
        assert(text@.subrange(0, position as int) =~= text@);
    }
    let ghost done = parts@;
    let ghost last = current@;
    parts.push(current);
    proof {
        assert(texts(parts@) =~= texts(done).push(last));
    }
    parts
}

/// Reads the number a field spells.
pub fn to_number(field: &Vec<u8>) -> (value: Option<usize>)
    ensures
        value == number(field@),
{
    let start: usize = if field.len() > 0 && field[0] == 43 {
        1
    } else {
        0
    };
    let ghost digits = unsigned(field@);
    if start == field.len() {
        return None;
    }
    let mut value: usize = 0;
    let mut position: usize = start;
    proof {
        assert(digits.subrange(0, 0) =~= Seq::empty());
    }
    while position < field.len()
        invariant
            start <= position <= field@.len(),
            digits == unsigned(field@),
            digits == field@.subrange(start as int, field@.len() as int),
            all_digits(digits.subrange(0, position - start)),
            value == digits_value(digits.subrange(0, position - start)),
        decreases field@.len() - position,
    {
        let symbol = field[position];
        let ghost seen = position - start;
        proof {
            assert(digits[seen] == symbol);
            assert(digits.subrange(0, seen + 1).drop_last() =~= digits.subrange(0, seen));
        }
        if symbol < 48 || symbol > 57 {
            return None;
        }
        let digit: usize = (symbol - 48) as usize;
        if value > (usize::MAX - digit) / 10 {
            proof {
                if all_digits(digits) {
                    lemma_digits_grow(digits, seen + 1);
                }
            }
            return None;
        }
        value = value * 10 + digit;
        proof {
            assert forall|i: int| 0 <= i < seen + 1 implies 48 <= #[trigger] digits.subrange(0, seen + 1)[i]
                <= 57 by {
                if i < seen {
                    assert(digits.subrange(0, seen)[i] == digits[i]);
                }
            }
        }
        position = position + 1;
    }
    proof {
        assert(digits.subrange(0, position - start) =~= digits);
    }
    Some(value)
}

/// Reads what a line says.
pub fn parse_line(line: &Vec<u8>) -> (said: Line)
    ensures
        said == reading(line@),
{
    let text = squeeze(line);
    let parts = split(&text, 44);
    proof {
        assert(texts(parts@).len() == parts@.len());
        assert(forall|i: int| 0 <= i < parts@.len() ==> texts(parts@)[i] == (#[trigger] parts@[i])@);
    }
    if parts.len() > 2 {
        match (to_number(&parts[1]), to_number(&parts[2])) {
            (Some(weight), Some(value)) => Line::Item(weight, value),
            _ => Line::Garbled,
        }
    } else if parts.len() == 2 {
        match to_number(&parts[1]) {
            Some(limit) => Line::Limit(limit),
            None => Line::BadLimit,
        }
    } else {
        Line::Blank
    }
}

/// Reads a listing line by line: the weight limit and the items, as pairs of
/// weight and value. There is no result if a limit line gives no number, or
/// if no line gives a limit above zero.
pub fn parse_lines(lines: &Vec<Vec<u8>>) -> (read: Option<(usize, Vec<(usize, usize)>)>)
    ensures
        read is Some <==> usable(texts(lines@)) && stated_limit(texts(lines@)) > 0,
        read matches Some(listing) ==> {
            &&& listing.0 == stated_limit(texts(lines@))
            &&& listing.1@ == stated_items(texts(lines@))
        },
{
    let ghost all = texts(lines@);
    let mut limit: usize = 0;
    let mut items: Vec<(usize, usize)> = Vec::new();
    let mut position: usize = 0;
    proof {
        assert(all.subrange(0, 0) =~= Seq::empty());
    }
    while position < lines.len()
        invariant
            all == texts(lines@),
            position <= lines@.len(),
            usable(all.subrange(0, position as int)),
            limit == stated_limit(all.subrange(0, position as int)),
            items@ == stated_items(all.subrange(0, position as int)),
        decreases lines@.len() - position,
    {
        let said = parse_line(&lines[position]);
        let ghost seen = all.subrange(0, position as int);
        let ghost more = all.subrange(0, position + 1);
        proof {
            assert(all[position as int] == lines@[position as int]@);
            assert(more.drop_last() =~= seen);
            assert(more.last() == all[position as int]);
        }
        match said {
            Line::Item(weight, value) => {
                items.push((weight, value));
            },
            Line::Limit(stated) => {
                limit = stated;
            },
            Line::BadLimit => {
                proof {
                    assert(reading(all[position as int]) == Line::BadLimit);
                }
                return None;
            },
            _ => {},
        }
        proof {
            assert forall|i: int| 0 <= i < more.len() implies reading(#[trigger] more[i]) != Line::BadLimit by {
                if i < position {
                    assert(seen[i] == more[i]);
                }
            }
        }
        position = position + 1;
    }
    proof {
        assert(all.subrange(0, position as int) =~= all);
    }
    if limit == 0 {
        None
    } else {
        Some((limit, items))
    }
}

/// Cuts a text into its lines.
pub fn cut_lines(content: &Vec<u8>) -> (lines: Vec<Vec<u8>>)
    ensures
        texts(lines@) == lines_of(content@),
{
    let mut cut = split(content, 10);
    let ghost all = texts(cut@);
    let rest = cut.pop();
    let ghost ended = texts(cut@);
    proof {
        assert(ended =~= all.drop_last());
    }
    let mut lines: Vec<Vec<u8>> = Vec::new();
    let mut position: usize = 0;
    while position < cut.len()
        invariant
            ended == texts(cut@),
            position <= cut@.len(),
            lines@.len() == position,
            forall|i: int| 0 <= i < position ==> (#[trigger] lines@[i])@ == unreturned(ended[i]),
        decreases cut@.len() - position,
    {
        let mut line = cut[position].clone();
        proof {
            assert(line@ == ended[position as int]);
        }
        if line.len() > 0 && line[line.len() - 1] == 13 {
            line.pop();
            proof {
                assert(line@ =~= ended[position as int].drop_last());
            }
        }
        lines.push(line);
        position = position + 1;
    }
    let ghost head = lines@;
    match rest {
        Some(last) => {
            if last.len() > 0 {
                lines.push(last);
            }
        },
        None => {},
    }
    proof {
        let wanted = lines_of(content@);
        assert(texts(head) =~= ended.map_values(|piece: Seq<u8>| unreturned(piece)));
        assert(texts(lines@) =~= wanted);
    }
    lines
}

/// Reads the listing a file holds: the weight limit and the items, as pairs
/// of weight and value. There is no result if a limit line gives no number,
/// or if no line gives a limit above zero.
pub fn parse_file(content: &Vec<u8>) -> (read: Option<(usize, Vec<(usize, usize)>)>)
    ensures
        read is Some <==> usable(lines_of(content@)) && stated_limit(lines_of(content@)) > 0,
        read matches Some(listing) ==> {
            &&& listing.0 == stated_limit(lines_of(content@))
            &&& listing.1@ == stated_items(lines_of(content@))
        },
{
    let lines = cut_lines(content);
    parse_lines(&lines)
}

} // verus!
