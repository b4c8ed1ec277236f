//! What holds of the arguments of every tool call.
use vstd::prelude::*;
use crate::agent::json::{
    field_flag, field_natural, field_size, field_text, field_value, first_object, object_end,
    repaired, robust_reading, JsonErrorView, JsonFieldView, JsonScalarView,
};
use crate::text::{find, find_from, lemma_find_from, trimmed};

verus! {

/// The first field of a name has the value that the name stands for, whatever follows it.
pub proof fn fields_are_found_by_name(fields: Seq<JsonFieldView>, i: int)
    requires
        0 <= i < fields.len(),
        forall|j: int| 0 <= j < i ==> (#[trigger] fields[j]).key != fields[i].key,
    ensures
        field_value(fields, fields[i].key) == Some(fields[i].value),
        field_text(fields, fields[i].key) == match fields[i].value {
            JsonScalarView::Text { value } => Some(value),
            _ => None,
        },
        field_natural(fields, fields[i].key) == match fields[i].value {
            JsonScalarView::Natural { value } => Some(value),
            _ => None,
        },
        field_flag(fields, fields[i].key) == match fields[i].value {
            JsonScalarView::Flag { value } => Some(value),
            _ => None,
        },
        field_size(fields, fields[i].key) == match fields[i].value {
            JsonScalarView::Natural { value } => Some(value as usize),
            _ => None,
        },
    decreases i,
{
    if i > 0 {
        let rest = fields.drop_first();
        assert(fields[0].key != fields[i].key);
        assert forall|j: int| 0 <= j < i - 1 implies (#[trigger] rest[j]).key != rest[i - 1].key by {
            assert(rest[j] == fields[j + 1]);
        }
        fields_are_found_by_name(rest, i - 1);
    }
}

/// A name that no field has stands for nothing.
pub proof fn missing_fields_are_not_found(fields: Seq<JsonFieldView>, key: Seq<char>)
    requires
        forall|i: int| 0 <= i < fields.len() ==> (#[trigger] fields[i]).key != key,
    ensures
        field_value(fields, key) is None,
        field_text(fields, key) is None,
        field_natural(fields, key) is None,
        field_flag(fields, key) is None,
        field_size(fields, key) is None,
    decreases fields.len(),
{
    if fields.len() > 0 {
        let rest = fields.drop_first();
        assert(fields[0].key != key);
        assert forall|i: int| 0 <= i < rest.len() implies (#[trigger] rest[i]).key != key by {
            assert(rest[i] == fields[i + 1]);
        }
        missing_fields_are_not_found(rest, key);
    }
}

// ---------------------------------------------------------------------------
// Objects in a text
// ---------------------------------------------------------------------------

/// A character of a string, with a backslash before it or not.
pub struct Letter {
    pub c: char,
    pub with_backslash: bool,
}

/// A piece of a text that holds objects.
pub enum Piece {
    Open,
    Close,
    /// A string in quotes.
    Quoted { letters: Seq<Letter> },
    /// A character with a backslash before it, outside strings.
    Escaped { c: char },
    /// Any other character.
    Plain { c: char },
}

/// How a letter is written.
pub open spec fn letter_text(letter: Letter) -> Seq<char> {
    if letter.with_backslash {
        seq!['\\', letter.c]
    } else {
        seq![letter.c]
    }
}

/// How letters are written.
pub open spec fn letters_text(letters: Seq<Letter>) -> Seq<char>
    decreases letters.len(),
{
    if letters.len() == 0 {
        Seq::empty()
    } else {
        letter_text(letters[0]) + letters_text(letters.drop_first())
    }
}

/// How a piece is written.
pub open spec fn piece_text(piece: Piece) -> Seq<char> {
    match piece {
        Piece::Open => seq!['{'],
        Piece::Close => seq!['}'],
        Piece::Quoted { letters } => seq!['"'] + letters_text(letters) + seq!['"'],
        Piece::Escaped { c } => seq!['\\', c],
        Piece::Plain { c } => seq![c],
    }
}

/// How pieces are written.
pub open spec fn pieces_text(pieces: Seq<Piece>) -> Seq<char>
    decreases pieces.len(),
{
    if pieces.len() == 0 {
        Seq::empty()
    } else {
        piece_text(pieces[0]) + pieces_text(pieces.drop_first())
    }
}

/// Whether the letters of a string end neither the string nor one another.
pub open spec fn are_letters(letters: Seq<Letter>) -> bool {
    forall|i: int|
        0 <= i < letters.len() ==> (#[trigger] letters[i]).with_backslash || (letters[i].c != '"'
            && letters[i].c != '\\')
}

/// Whether a piece is what its kind says.
pub open spec fn is_piece(piece: Piece) -> bool {
    match piece {
        Piece::Quoted { letters } => are_letters(letters),
        Piece::Plain { c } => c != '"' && c != '\\' && c != '{' && c != '}',
        _ => true,
    }
}

/// Whether pieces are what their kinds say.
pub open spec fn are_pieces(pieces: Seq<Piece>) -> bool {
    forall|i: int| 0 <= i < pieces.len() ==> is_piece(#[trigger] pieces[i])
}

/// Whether pieces close the `open` objects that are open before them, and each of their own,
/// and no other.
pub open spec fn balanced(pieces: Seq<Piece>, open: nat) -> bool
    decreases pieces.len(),
{
    if pieces.len() == 0 {
        open == 0
    } else {
        let rest = pieces.drop_first();
        match pieces[0] {
            Piece::Open => balanced(rest, open + 1),
            Piece::Close => open > 0 && balanced(rest, (open - 1) as nat),
            _ => balanced(rest, open),
        }
    }
}

proof fn lemma_pieces_rest(pieces: Seq<Piece>)
    requires
        pieces.len() > 0,
        are_pieces(pieces),
    ensures
        is_piece(pieces[0]),
        are_pieces(pieces.drop_first()),
{
    assert(is_piece(pieces[0]));
    let rest = pieces.drop_first();
    assert forall|i: int| 0 <= i < rest.len() implies is_piece(#[trigger] rest[i]) by {
        assert(rest[i] == pieces[i + 1]);
    }
}

proof fn lemma_letters_rest(letters: Seq<Letter>)
    requires
        letters.len() > 0,
        are_letters(letters),
    ensures
        letters[0].with_backslash || (letters[0].c != '"' && letters[0].c != '\\'),
        are_letters(letters.drop_first()),
{
    assert(letters[0].with_backslash || letters[0].c != '"');
    let rest = letters.drop_first();
    assert forall|i: int| 0 <= i < rest.len() implies (#[trigger] rest[i]).with_backslash || (
    rest[i].c != '"' && rest[i].c != '\\') by {
        assert(rest[i] == letters[i + 1]);
    }
}

proof fn lemma_scan_letters(s: Seq<char>, at: int, letters: Seq<Letter>, depth: int)
    requires
        0 <= at,
        at + letters_text(letters).len() <= s.len(),
        s.subrange(at, at + letters_text(letters).len()) == letters_text(letters),
        are_letters(letters),
    ensures
        object_end(s, at, depth, true, false) == object_end(
            s,
            at + letters_text(letters).len(),
            depth,
            true,
            false,
        ),
    decreases letters.len(),
{
    if letters.len() > 0 {
        lemma_letters_rest(letters);
        let all = letters_text(letters);
        let first = letter_text(letters[0]);
        let rest = letters_text(letters.drop_first());
        let next = at + first.len();
        assert(s[at] == all[0]);
        assert(all[0] == first[0]);
        if letters[0].with_backslash {
            assert(s[at + 1] == all[1]);
            assert(all[1] == first[1]);
            assert(object_end(s, at + 1, depth, true, true) == object_end(
                s,
                at + 2,
                depth,
                true,
                false,
            ));
        }
        assert(object_end(s, at, depth, true, false) == object_end(s, next, depth, true, false));
        assert(s.subrange(next, next + rest.len()) =~= rest) by {
            assert forall|k: int| 0 <= k < rest.len() implies s[next + k] == rest[k] by {
                assert(s.subrange(at, at + all.len())[first.len() + k] == all[first.len() + k]);
            }
        }
        lemma_scan_letters(s, next, letters.drop_first(), depth);
    }
}

proof fn lemma_scan_pieces(s: Seq<char>, at: int, pieces: Seq<Piece>, open: nat)
    requires
        0 <= at,
        at + pieces_text(pieces).len() <= s.len(),
        s.subrange(at, at + pieces_text(pieces).len()) == pieces_text(pieces),
        are_pieces(pieces),
        balanced(pieces, open),
    ensures
        object_end(s, at, (open + 1) as int, false, false) == object_end(
            s,
            at + pieces_text(pieces).len(),
            1,
            false,
            false,
        ),
    decreases pieces.len(),
{
    if pieces.len() > 0 {
        lemma_pieces_rest(pieces);
        let all = pieces_text(pieces);
        let first = piece_text(pieces[0]);
        let rest = pieces_text(pieces.drop_first());
        let next = at + first.len();
        assert forall|k: int| 0 <= k < first.len() implies s[at + k] == first[k] by {
            assert(s.subrange(at, at + all.len())[k] == all[k]);
        }
        assert(s[at] == first[0]) by {
            assert(s[at + 0] == first[0]);
        }
        assert(s.subrange(next, next + rest.len()) =~= rest) by {
            assert forall|k: int| 0 <= k < rest.len() implies s[next + k] == rest[k] by {
                assert(s.subrange(at, at + all.len())[first.len() + k] == all[first.len() + k]);
            }
        }
        let after: nat = match pieces[0] {
            Piece::Open => open + 1,
            Piece::Close => (open - 1) as nat,
            _ => open,
        };
        match pieces[0] {
            Piece::Quoted { letters } => {
                let inner = letters_text(letters);
                assert(s.subrange(at + 1, at + 1 + inner.len()) =~= inner) by {
                    assert forall|k: int| 0 <= k < inner.len() implies s[at + 1 + k] == inner[k] by {
                        assert(s[at + (1 + k)] == first[1 + k]);
                    }
                }
                lemma_scan_letters(s, at + 1, letters, (open + 1) as int);
                assert(s[at + (1 + inner.len())] == first[1 + inner.len() as int]);
                assert(first[1 + inner.len() as int] == '"');
            },
            Piece::Escaped { c } => {
                assert(object_end(s, at + 1, (open + 1) as int, false, true) == object_end(
                    s,
                    at + 2,
                    (open + 1) as int,
                    false,
                    false,
                ));
            },
            _ => {},
        }
        assert(object_end(s, at, (open + 1) as int, false, false) == object_end(
            s,
            next,
            (after + 1) as int,
            false,
            false,
        ));
        lemma_scan_pieces(s, next, pieces.drop_first(), after);
    }
}

proof fn lemma_find_brace(before: Seq<char>, rest: Seq<char>, from: int)
    requires
        0 <= from <= before.len(),
        !before.contains('{'),
        rest.len() > 0,
        rest[0] == '{',
    ensures
        find_from(before + rest, seq!['{'], from) == Some(before.len() as int),
    decreases before.len() - from,
{
    let s = before + rest;
    assert(s.subrange(from, from + 1)[0] == s[from]);
    if from < before.len() {
        assert(before.contains(before[from]));
        assert(s.subrange(from, from + 1) != seq!['{']) by {
            assert(seq!['{'][0] == '{');
        }
        lemma_find_brace(before, rest, from + 1);
    } else {
        assert(s.subrange(from, from + 1) =~= seq!['{']);
    }
}

/// The first object of a text is what stands between its first opening brace and the brace
/// that closes it, with both braces: whatever stands before and behind it, whatever objects
/// it holds, and whatever its strings hold.
pub proof fn objects_are_found_whole(before: Seq<char>, pieces: Seq<Piece>, more: Seq<char>)
    requires
        !before.contains('{'),
        are_pieces(pieces),
        balanced(pieces, 0),
    ensures
        first_object(before + (seq!['{'] + pieces_text(pieces) + seq!['}']) + more) == Some(
            seq!['{'] + pieces_text(pieces) + seq!['}'],
        ),
{
    let inner = pieces_text(pieces);
    let object = seq!['{'] + inner + seq!['}'];
    let s = before + object + more;
    assert(s =~= before + (object + more));
    lemma_find_from(s, seq!['{'], 0);
    lemma_find_brace(before, object + more, 0);
    let start = before.len() as int;
    let end = start + 1 + inner.len();
    assert(s[start] == '{');
    assert(s.subrange(start + 1, start + 1 + inner.len()) =~= inner);
    lemma_scan_pieces(s, start + 1, pieces, 0);
    assert(s[end] == '}');
    assert(object_end(s, start, 0, false, false) == Some(end));
    assert(s.subrange(start, end + 1) =~= object);
}

/// A text without an opening brace has no object.
pub proof fn texts_without_braces_have_no_object(s: Seq<char>)
    requires
        !s.contains('{'),
    ensures
        first_object(s) is None,
{
    lemma_find_from(s, seq!['{'], 0);
    if find(s, seq!['{']) is Some {
        let at = find(s, seq!['{'])->0;
        assert(s.subrange(at, at + 1)[0] == s[at]);
        assert(s.contains(s[at]));
    }
}

/// A letter of a string as JSON can take it: a line feed, a carriage return and a tab become
/// their escapes.
pub open spec fn mended_letter(letter: Letter) -> Letter {
    if letter.with_backslash {
        letter
    } else if letter.c == '\n' {
        Letter { c: 'n', with_backslash: true }
    } else if letter.c == '\r' {
        Letter { c: 'r', with_backslash: true }
    } else if letter.c == '\t' {
        Letter { c: 't', with_backslash: true }
    } else {
        letter
    }
}

/// A piece with the letters of its string mended.
pub open spec fn mended_piece(piece: Piece) -> Piece {
    match piece {
        Piece::Quoted { letters } => Piece::Quoted {
            letters: letters.map_values(|letter: Letter| mended_letter(letter)),
        },
        _ => piece,
    }
}

proof fn lemma_repair_step(c: char, rest: Seq<char>, in_string: bool, escaped: bool)
    ensures
        repaired(seq![c] + rest, in_string, escaped) == if escaped {
            seq![c] + repaired(rest, in_string, false)
        } else if c == '\\' {
            seq![c] + repaired(rest, in_string, true)
        } else if c == '"' {
            seq![c] + repaired(rest, !in_string, false)
        } else if in_string && c == '\n' {
            seq!['\\', 'n'] + repaired(rest, in_string, false)
        } else if in_string && c == '\r' {
            seq!['\\', 'r'] + repaired(rest, in_string, false)
        } else if in_string && c == '\t' {
            seq!['\\', 't'] + repaired(rest, in_string, false)
        } else {
            seq![c] + repaired(rest, in_string, false)
        },
{
    assert((seq![c] + rest).drop_first() =~= rest);
}

proof fn lemma_repair_letters(letters: Seq<Letter>, rest: Seq<char>)
    requires
        are_letters(letters),
    ensures
        repaired(letters_text(letters) + rest, true, false) == letters_text(
            letters.map_values(|letter: Letter| mended_letter(letter)),
        ) + repaired(rest, true, false),
    decreases letters.len(),
{
    let mended = letters.map_values(|letter: Letter| mended_letter(letter));
    if letters.len() == 0 {
        assert(letters_text(letters) + rest =~= rest);
        assert(letters_text(mended) + repaired(rest, true, false) =~= repaired(rest, true, false));
    } else {
        lemma_letters_rest(letters);
        let less = letters.drop_first();
        let tail = letters_text(less) + rest;
        lemma_repair_letters(less, rest);
        assert(mended.drop_first() =~= less.map_values(|letter: Letter| mended_letter(letter)));
        let c = letters[0].c;
        if letters[0].with_backslash {
            assert(letters_text(letters) + rest =~= seq!['\\'] + (seq![c] + tail));
            lemma_repair_step('\\', seq![c] + tail, true, false);
            lemma_repair_step(c, tail, true, true);
        } else {
            assert(letters_text(letters) + rest =~= seq![c] + tail);
            lemma_repair_step(c, tail, true, false);
        }
        assert(repaired(letters_text(letters) + rest, true, false) =~= letter_text(
            mended_letter(letters[0]),
        ) + repaired(tail, true, false));
        assert(letters_text(mended) + repaired(rest, true, false) =~= letter_text(mended[0]) + (
        letters_text(mended.drop_first()) + repaired(rest, true, false)));
    }
}

proof fn lemma_repair_pieces(pieces: Seq<Piece>)
    requires
        are_pieces(pieces),
    ensures
        repaired(pieces_text(pieces), false, false) == pieces_text(
            pieces.map_values(|piece: Piece| mended_piece(piece)),
        ),
    decreases pieces.len(),
{
    let mended = pieces.map_values(|piece: Piece| mended_piece(piece));
    if pieces.len() > 0 {
        lemma_pieces_rest(pieces);
        let less = pieces.drop_first();
        let tail = pieces_text(less);
        lemma_repair_pieces(less);
        assert(mended.drop_first() =~= less.map_values(|piece: Piece| mended_piece(piece)));
        match pieces[0] {
            Piece::Quoted { letters } => {
                let inner = letters_text(letters);
                let better = letters.map_values(|letter: Letter| mended_letter(letter));
                assert(pieces_text(pieces) =~= seq!['"'] + (inner + (seq!['"'] + tail)));
                lemma_repair_step('"', inner + (seq!['"'] + tail), false, false);
                lemma_repair_letters(letters, seq!['"'] + tail);
                lemma_repair_step('"', tail, true, false);
                assert(mended[0] == (Piece::Quoted { letters: better }));
                assert(seq!['"'] + (letters_text(better) + (seq!['"'] + repaired(
                    tail,
                    false,
                    false,
                ))) =~= piece_text(mended[0]) + repaired(tail, false, false));
            },
            Piece::Escaped { c } => {
                assert(pieces_text(pieces) =~= seq!['\\'] + (seq![c] + tail));
                lemma_repair_step('\\', seq![c] + tail, false, false);
                lemma_repair_step(c, tail, false, true);
                assert(seq!['\\'] + (seq![c] + repaired(tail, false, false)) =~= piece_text(
                    mended[0],
                ) + repaired(tail, false, false));
            },
            Piece::Open => {
                lemma_repair_step('{', tail, false, false);
            },
            Piece::Close => {
                lemma_repair_step('}', tail, false, false);
            },
            Piece::Plain { c } => {
                lemma_repair_step(c, tail, false, false);
            },
        }
    }
}

/// Repairing a text mends the letters of its strings and changes nothing else.
pub proof fn repair_mends_strings_only(pieces: Seq<Piece>)
    requires
        are_pieces(pieces),
    ensures
        repaired(pieces_text(pieces), false, false) == pieces_text(
            pieces.map_values(|piece: Piece| mended_piece(piece)),
        ),
{
    lemma_repair_pieces(pieces);
}

// ---------------------------------------------------------------------------
// Arguments
// ---------------------------------------------------------------------------

/// A text that can be read as it stands is; one of white space alone holds nothing.
pub proof fn readable_arguments_are_read_whole(
    text: Seq<char>,
    read: spec_fn(Seq<char>) -> Option<Seq<JsonFieldView>>,
)
    ensures
        trimmed(text).len() == 0 ==> robust_reading(text, read) == Ok::<
            Seq<JsonFieldView>,
            JsonErrorView,
        >(Seq::empty()),
        trimmed(text).len() > 0 && read(text) is Some ==> robust_reading(text, read) == Ok::<
            Seq<JsonFieldView>,
            JsonErrorView,
        >(read(text)->0),
{
}

/// Where the whole text cannot be read, the first object in it is, else that object with
/// its strings mended; where that fails too, it is named.
pub proof fn surrounded_objects_are_read(
    text: Seq<char>,
    before: Seq<char>,
    pieces: Seq<Piece>,
    more: Seq<char>,
    read: spec_fn(Seq<char>) -> Option<Seq<JsonFieldView>>,
)
    requires
        !before.contains('{'),
        are_pieces(pieces),
        balanced(pieces, 0),
        trimmed(text) == before + (seq!['{'] + pieces_text(pieces) + seq!['}']) + more,
        read(text) is None,
    ensures
        ({
            let object = seq!['{'] + pieces_text(pieces) + seq!['}'];
            let mended = seq!['{'] + pieces_text(
                pieces.map_values(|piece: Piece| mended_piece(piece)),
            ) + seq!['}'];
            robust_reading(text, read) == if read(object) is Some {
                Ok::<Seq<JsonFieldView>, JsonErrorView>(read(object)->0)
            } else if read(mended) is Some {
                Ok(read(mended)->0)
            } else {
                Err(JsonErrorView::BadObject { part: object })
            }
        }),
{
    objects_are_found_whole(before, pieces, more);
    let inner = pieces_text(pieces);
    let object = seq!['{'] + inner + seq!['}'];
    let all = seq![Piece::Open] + pieces + seq![Piece::Close];
    assert forall|i: int| 0 <= i < all.len() implies is_piece(#[trigger] all[i]) by {
        if 0 < i <= pieces.len() {
            assert(all[i] == pieces[i - 1]);
        }
    }
    lemma_wrapped(pieces);
    repair_mends_strings_only(all);
    let better = pieces.map_values(|piece: Piece| mended_piece(piece));
    lemma_wrapped(better);
    assert(all.map_values(|piece: Piece| mended_piece(piece)) =~= seq![Piece::Open] + better + seq![
        Piece::Close,
    ]);
    assert(trimmed(text).len() > 0);
}

proof fn lemma_pieces_text_push(pieces: Seq<Piece>, piece: Piece)
    ensures
        pieces_text(pieces.push(piece)) == pieces_text(pieces) + piece_text(piece),
    decreases pieces.len(),
{
    let all = pieces.push(piece);
    if pieces.len() == 0 {
        assert(all.drop_first() =~= Seq::<Piece>::empty());
        assert(pieces_text(all.drop_first()) =~= Seq::<char>::empty());
        assert(all[0] == piece);
        assert(piece_text(piece) + Seq::<char>::empty() =~= piece_text(piece));
        assert(pieces_text(pieces) + piece_text(piece) =~= piece_text(piece));
    } else {
        assert(all.drop_first() =~= pieces.drop_first().push(piece));
        lemma_pieces_text_push(pieces.drop_first(), piece);
        assert(pieces_text(all) =~= pieces_text(pieces) + piece_text(piece));
    }
}

proof fn lemma_wrapped(pieces: Seq<Piece>)
    ensures
        pieces_text(seq![Piece::Open] + pieces + seq![Piece::Close]) == seq!['{'] + pieces_text(
            pieces,
        ) + seq!['}'],
{
    let all = seq![Piece::Open] + pieces + seq![Piece::Close];
    assert(all.drop_first() =~= pieces.push(Piece::Close));
    lemma_pieces_text_push(pieces, Piece::Close);
    assert(pieces_text(all) =~= seq!['{'] + pieces_text(pieces) + seq!['}']);
}

/// A text without any object cannot be read, and is named.
pub proof fn arguments_without_object_are_refused(
    text: Seq<char>,
    read: spec_fn(Seq<char>) -> Option<Seq<JsonFieldView>>,
)
    requires
        trimmed(text).len() > 0,
        !trimmed(text).contains('{'),
        read(text) is None,
    ensures
        robust_reading(text, read) == Err::<Seq<JsonFieldView>, JsonErrorView>(
            JsonErrorView::NoObject { text },
        ),
{
    texts_without_braces_have_no_object(trimmed(text));
}

} // verus!
