//! Text helpers shared by the record model, the renderer and the configuration.
//!
//! Contracts speak of a string through its view, the sequence of its characters.
//! Lengths are byte lengths of the UTF-8 encoding, which is what the store's
//! columns and the validation limits count.

use vstd::prelude::*;
use vstd::string::*;
use vstd::utf8::encode_utf8;

verus! {

/// `String::push` appends one character to the end of the string.
pub assume_specification[ String::push ](text: &mut String, c: char)
    ensures
        final(text)@ == old(text)@.push(c),
;

/// `==` on string slices holds exactly when both hold the same characters.
pub assume_specification[ <str as PartialEq>::eq ](a: &str, b: &str) -> (same: bool)
    ensures
        same == (a@ == b@),
;

/// What `str::to_lowercase` returns for `text`: its Unicode lower-case form.
pub uninterp spec fn lowercased(text: Seq<char>) -> Seq<char>;

/// `str::to_lowercase` depends on the characters of its argument alone.
pub assume_specification[ str::to_lowercase ](text: &str) -> (lower: String)
    ensures
        lower@ == lowercased(text@),
;

/// What parsing `text` as an unsigned 64-bit decimal number gives, `None` where
/// the standard library rejects it.
pub uninterp spec fn parsed_u64(text: Seq<char>) -> Option<u64>;

/// Reads a decimal number with `str::parse::<u64>`, dropping the reason of a
/// failure. The outcome depends on the characters alone.
#[verifier::external_body]
pub(crate) fn parse_u64(text: &str) -> (number: Option<u64>)
    ensures
        number == parsed_u64(text@),
{
    text.parse::<u64>().ok()
}

/// Number of bytes that `text` takes in UTF-8.
pub open spec fn byte_len(text: Seq<char>) -> nat {
    encode_utf8(text).len()
}

/// Number of bytes that `text` takes in UTF-8.
pub fn byte_length(text: &str) -> (n: usize)
    ensures
        n == byte_len(text@),
{
    text.as_bytes().len()
}

/// The views of a sequence of strings.
pub open spec fn texts(items: Seq<String>) -> Seq<Seq<char>> {
    Seq::new(items.len(), |i: int| items[i]@)
}

/// The view of an optional string.
pub open spec fn opt_text(item: Option<String>) -> Option<Seq<char>> {
    match item {
        Some(text) => Some(text@),
        None => None,
    }
}

/// `items` written one after the other with `sep` between neighbours.
pub open spec fn glued(items: Seq<Seq<char>>, sep: char) -> Seq<char>
    decreases items.len(),
{
    if items.len() == 0 {
        Seq::empty()
    } else if items.len() == 1 {
        items[0]
    } else {
        glued(items.drop_last(), sep).push(sep) + items.last()
    }
}

/// The pieces of `text` between occurrences of `sep`. There is always at least
/// one piece: the empty text has one empty piece, and a trailing `sep` is
/// followed by an empty piece.
pub open spec fn pieces(text: Seq<char>, sep: char) -> Seq<Seq<char>>
    decreases text.len(),
{
    if text.len() == 0 {
        seq![Seq::empty()]
    } else {
        let before = pieces(text.drop_last(), sep);
        if text.last() == sep {
            before.push(Seq::empty())
        } else {
            before.drop_last().push(before.last().push(text.last()))
        }
    }
}

/// Splitting never yields an empty list of pieces.
pub proof fn lemma_pieces_nonempty(text: Seq<char>, sep: char)
    ensures
        pieces(text, sep).len() >= 1,
    decreases text.len(),
{
    if text.len() > 0 {
        lemma_pieces_nonempty(text.drop_last(), sep);
    }
}

/// Text without a separator, appended to `head`, only lengthens the last piece.
pub proof fn lemma_pieces_append(head: Seq<char>, tail: Seq<char>, sep: char)
    requires
        !tail.contains(sep),
    ensures
        pieces(head, sep).len() >= 1,
        pieces(head + tail, sep) == pieces(head, sep).drop_last().push(
            pieces(head, sep).last() + tail,
        ),
    decreases tail.len(),
{
    lemma_pieces_nonempty(head, sep);
    let base = pieces(head, sep);
    if tail.len() == 0 {
        assert(head + tail == head);
        assert(base.last() + tail == base.last());
        assert(base.drop_last().push(base.last()) == base);
    } else {
        let shorter = tail.drop_last();
        assert(!shorter.contains(sep)) by {
            if shorter.contains(sep) {
                let i = choose|i: int| 0 <= i < shorter.len() && shorter[i] == sep;
                assert(tail[i] == sep);
            }
        }
        assert(tail.last() != sep) by {
            assert(tail[tail.len() - 1] == tail.last());
        }
        lemma_pieces_append(head, shorter, sep);
        let whole = head + tail;
        assert(whole.drop_last() == head + shorter);
        assert(whole.last() == tail.last());
        let before = pieces(head + shorter, sep);
        assert(before.drop_last() == base.drop_last());
        assert(before.last() == base.last() + shorter);
        assert((base.last() + shorter).push(tail.last()) == base.last() + tail);
    }
}

/// Splitting what was glued gives the items back, as long as there is at least
/// one item and no item holds the separator.
pub proof fn lemma_pieces_of_glued(items: Seq<Seq<char>>, sep: char)
    requires
        items.len() >= 1,
        forall|i: int| 0 <= i < items.len() ==> !(#[trigger] items[i]).contains(sep),
    ensures
        pieces(glued(items, sep), sep) == items,
    decreases items.len(),
{
    let empty = Seq::<char>::empty();
    if items.len() == 1 {
        lemma_pieces_append(empty, items[0], sep);
        assert(empty + items[0] == items[0]);
        assert(pieces(empty, sep) == seq![empty]);
        assert(seq![empty].drop_last().push(empty + items[0]) == items);
    } else {
        let init = items.drop_last();
        assert forall|i: int| 0 <= i < init.len() implies !(#[trigger] init[i]).contains(sep) by {
            assert(init[i] == items[i]);
        }
        lemma_pieces_of_glued(init, sep);
        let stem = glued(init, sep).push(sep);
        assert(stem.drop_last() == glued(init, sep));
        assert(pieces(stem, sep) == init.push(empty));
        assert(!items.last().contains(sep)) by {
            assert(items[items.len() - 1] == items.last());
        }
        lemma_pieces_append(stem, items.last(), sep);
        assert(empty + items.last() == items.last());
        assert(init.push(empty).drop_last() == init);
        assert(init.push(items.last()) == items);
    }
}

/// Whether `c` occurs in `text`.
pub fn contains_char(text: &str, c: char) -> (found: bool)
    ensures
        found == text@.contains(c),
{
    let mut found = false;
    for seen in it: text.chars()
        invariant
            it.seq() == text@,
            found <==> exists|j: int| 0 <= j < it.index() && text@[j] == c,
    {
        if seen == c {
            found = true;
        }
    }
    found
}

/// Writes `items` one after the other with `sep` between neighbours.
pub fn join_with(items: &Vec<String>, sep: char) -> (line: String)
    ensures
        line@ == glued(texts(items@), sep),
{
    let mut line = String::new();
    let mut i: usize = 0;
    while i < items.len()
        invariant
            i <= items.len(),
            line@ == glued(texts(items@).take(i as int), sep),
        decreases items.len() - i,
    {
        let ghost done = texts(items@).take(i as int);
        let ghost next = texts(items@).take(i + 1);
        proof {
            assert(next.drop_last() == done);
            assert(next.last() == items@[i as int]@);
            reveal_with_fuel(glued, 2);
        }
        if i > 0 {
            line.push(sep);
        }
        line.append(items[i].as_str());
        proof {
            if i == 0 {
                assert(done == Seq::<Seq<char>>::empty());
                assert(Seq::<char>::empty() + items@[0]@ == items@[0]@);
            }
        }
        i = i + 1;
    }
    proof {
        assert(texts(items@).take(items.len() as int) == texts(items@));
    }
    line
}

/// Cuts `text` at every occurrence of `sep`.
pub fn split_on(text: &str, sep: char) -> (parts: Vec<String>)
    ensures
        texts(parts@) == pieces(text@, sep),
{
    let mut parts: Vec<String> = Vec::new();
    let mut current = String::new();
    for c in it: text.chars()
        invariant
            it.seq() == text@,
            pieces(text@.take(it.index() as int), sep) == texts(parts@).push(current@),
    {
        let ghost seen = text@.take(it.index() as int);
        let ghost grown = text@.take(it.index() + 1);
        proof {
            assert(grown.drop_last() == seen);
            assert(grown.last() == c);
        }
        if c == sep {
            let ghost before = texts(parts@);
            let ghost closed = current@;
            parts.push(current);
            current = String::new();
            proof {
                assert(texts(parts@) == before.push(closed));
            }
        } else {
            let ghost before = texts(parts@).push(current@);
            current.push(c);
            proof {
                assert(before.drop_last() == texts(parts@));
            }
        }
    }
    proof {
        assert(text@.take(text@.len() as int) == text@);
    }
    let ghost before = texts(parts@);
    let ghost closed = current@;
    parts.push(current);
    proof {
        assert(texts(parts@) == before.push(closed));
    }
    parts
}

/// `head` followed by `tail`.
pub fn chain(head: &str, tail: &str) -> (whole: String)
    ensures
        whole@ == head@ + tail@,
{
    let mut whole = String::from_str(head);
    whole.append(tail);
    whole
}

/// The character that writes the decimal digit `d`.
pub open spec fn digit_char(d: nat) -> char
    recommends
        d < 10,
{
    if d == 0 {
        '0'
    } else if d == 1 {
        '1'
    } else if d == 2 {
        '2'
    } else if d == 3 {
        '3'
    } else if d == 4 {
        '4'
    } else if d == 5 {
        '5'
    } else if d == 6 {
        '6'
    } else if d == 7 {
        '7'
    } else if d == 8 {
        '8'
    } else {
        '9'
    }
}

/// The decimal digits of `n`, most significant first, without leading zeros.
pub open spec fn decimal_digits(n: nat) -> Seq<char>
    decreases n,
{
    if n < 10 {
        seq![digit_char(n)]
    } else {
        decimal_digits(n / 10).push(digit_char(n % 10))
    }
}

fn digit(d: u64) -> (c: char)
    requires
        d < 10,
    ensures
        c == digit_char(d as nat),
{
    if d == 0 {
        '0'
    } else if d == 1 {
        '1'
    } else if d == 2 {
        '2'
    } else if d == 3 {
        '3'
    } else if d == 4 {
        '4'
    } else if d == 5 {
        '5'
    } else if d == 6 {
        '6'
    } else if d == 7 {
        '7'
    } else if d == 8 {
        '8'
    } else {
        '9'
    }
}

/// Writes `n` in decimal.
pub fn decimal(n: u64) -> (digits: String)
    ensures
        digits@ == decimal_digits(n as nat),
    decreases n,
{
    if n < 10 {
        let mut digits = String::new();
        digits.push(digit(n));
        proof {
            assert(Seq::<char>::empty().push(digit_char(n as nat)) == seq![digit_char(n as nat)]);
        }
        digits
    } else {
        let mut digits = decimal(n / 10);
        digits.push(digit(n % 10));
        digits
    }
}

} // verus!
