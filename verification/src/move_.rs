//! A move: take all tiles of one color from one factory and put them on one
//! pattern line, the surplus on the floor line.
use vstd::prelude::*;
use crate::tile_color::{TileColor, color_index, color_of_index, color_display, push_char};
use crate::factories::CENTER_FACTORY_INDEX;
use crate::text::{dec, dec2, push_decimal, push_decimal2, parse_uint, parse_uint_exec, ascii, lemma_parse_dec,
    lemma_dec_digits, digits_value, number_digits, all_digits, is_digit};
use crate::tile_color::lemma_color_index_roundtrip;
use crate::notation::lemma_dec_ascii;
use vstd::utf8::{is_char_boundary, encode_utf8, is_ascii_chars, is_ascii_chars_encode_utf8, encode_utf8_valid_utf8,
    is_char_boundary_iff_not_is_continuation_byte, is_char_boundary_start_end_of_seq};
use vstd::string::StringSliceAdditionalSpecFns;

verus! {

#[derive(Debug, Clone, Copy, PartialEq, Eq, Hash, Structural)]
pub struct Move {
    /// The factory from which the tiles are taken.
    pub factory_index: u8,
    /// The color of the tiles taken.
    pub color: TileColor,
    /// The pattern line on which they are placed: 0 to 4, or 5 for the floor line.
    pub pattern_line_index: u8,
    /// How many tiles go to the floor line.
    pub discards: u8,
    /// How many tiles go to the pattern line.
    pub places: u8,
}

/// The dummy move, standing for no move.
pub open spec fn dummy_move() -> Move {
    Move { factory_index: 0, color: TileColor::Red, pattern_line_index: 0, discards: 0, places: 0 }
}

/// The text of a move: factory, color number and pattern line in one digit
/// each (more where the number is larger), discards and places in two digits.
pub open spec fn move_text(m: Move) -> Seq<char> {
    dec(m.factory_index as nat) + dec(color_index(m.color)) + dec(m.pattern_line_index as nat) + dec2(
        m.discards as nat,
    ) + dec2(m.places as nat)
}

/// Whether slicing a text of `bytes` at the fields of a move text is allowed
/// as far as reading goes: each field is cut out on character boundaries
/// where every field before it has been read as a number.
pub open spec fn move_text_cuts_ok(bytes: Seq<u8>) -> bool {
    bytes.len() >= 7 ==> {
        &&& is_char_boundary(bytes, 1)
        &&& field(bytes, 0, 1) is Some ==> is_char_boundary(bytes, 2)
        &&& field(bytes, 0, 1) is Some && field(bytes, 1, 2) is Some ==> is_char_boundary(bytes, 3)
        &&& field(bytes, 0, 1) is Some && field(bytes, 1, 2) is Some && field(bytes, 2, 3) is Some
            ==> is_char_boundary(bytes, 5)
        &&& field(bytes, 0, 1) is Some && field(bytes, 1, 2) is Some && field(bytes, 2, 3) is Some && field(
            bytes,
            3,
            5,
        ) is Some ==> is_char_boundary(bytes, 7)
    }
}

/// The text fields of a move text: bytes `0..1`, `1..2`, `2..3`, `3..5`, `5..7`.
pub open spec fn field(bytes: Seq<u8>, lo: int, hi: int) -> Option<nat> {
    parse_uint(bytes.subrange(lo, hi), 255)
}

/// What reading a move text gives: an error message, or the move.
pub open spec fn move_from_text(bytes: Seq<u8>) -> Result<Move, Seq<char>> {
    if bytes.len() < 7 {
        Err("String too short"@)
    } else if field(bytes, 0, 1) is None {
        Err("Invalid factory index"@)
    } else if field(bytes, 1, 2) is None {
        Err("Invalid color"@)
    } else if field(bytes, 2, 3) is None {
        Err("Invalid pattern line index"@)
    } else if field(bytes, 3, 5) is None {
        Err("Invalid discards"@)
    } else if field(bytes, 5, 7) is None {
        Err("Invalid places"@)
    } else {
        Ok(
            Move {
                factory_index: field(bytes, 0, 1)->0 as u8,
                color: color_of_index(field(bytes, 1, 2)->0 as int),
                pattern_line_index: field(bytes, 2, 3)->0 as u8,
                discards: field(bytes, 3, 5)->0 as u8,
                places: field(bytes, 5, 7)->0 as u8,
            },
        )
    }
}

/// Whether reading a move text would meet a color number that names no color.
pub open spec fn move_text_bad_color(bytes: Seq<u8>) -> bool {
    bytes.len() >= 7 && field(bytes, 0, 1) is Some && field(bytes, 1, 2) is Some && field(bytes, 1, 2)->0
        >= 5
}

/// The text of a move as shown to a player, for instance `3Y2->2@4 D1`.
pub open spec fn move_display(m: Move) -> Seq<char> {
    if m == dummy_move() {
        "Dummy Move"@
    } else {
        dec((m.discards + m.places) as nat) + color_display(m.color) + (if m.factory_index == 5 {
            seq!['c']
        } else {
            dec((m.factory_index + 1) as nat)
        }) + seq!['-', '>'] + (if m.places > 0 {
            dec(m.places as nat) + seq!['@'] + dec((m.pattern_line_index + 1) as nat)
        } else {
            Seq::empty()
        }) + (if m.places > 0 && m.discards > 0 {
            seq![' ']
        } else {
            Seq::empty()
        }) + (if m.discards > 0 {
            seq!['D'] + dec(m.discards as nat)
        } else {
            Seq::empty()
        })
    }
}

/// Whether the counts of a move can be shown without overflow.
pub open spec fn move_displayable(m: Move) -> bool {
    m.discards + m.places <= 255 && m.factory_index < 255 && m.pattern_line_index < 255
}

impl Move {
    /// The dummy move: nothing taken from factory 0.
    pub fn dummy() -> (m: Move)
        ensures
            m == dummy_move(),
    {
        Move { factory_index: 0, color: TileColor::Red, pattern_line_index: 0, discards: 0, places: 0 }
    }

    /// The text of the move.
    pub fn serialize_string(&self) -> (s: String)
        ensures
            s@ == move_text(*self),
    {
        let mut s = String::new();
        push_decimal(&mut s, self.factory_index as u128);
        push_decimal(&mut s, self.color.to_usize() as u128);
        push_decimal(&mut s, self.pattern_line_index as u128);
        push_decimal2(&mut s, self.discards as u128);
        push_decimal2(&mut s, self.places as u128);
        s
    }

    /// Reads a move text. Its first seven bytes hold the five fields; what
    /// follows is ignored.
    pub fn deserialize_string(string: &str) -> (r: Result<Move, String>)
        requires
            move_text_cuts_ok(string.spec_bytes()),
            !move_text_bad_color(string.spec_bytes()),
        ensures
            match (r, move_from_text(string.spec_bytes())) {
                (Ok(m), Ok(n)) => m == n,
                (Err(e), Err(f)) => e@ == f,
                _ => false,
            },
    {
        let bytes = string.as_bytes();
        if bytes.len() < 7 {
            return Err(String::from_str("String too short"));
        }
        let factory_index = match parse_uint_exec(bytes, 0, 1, 255) {
            Some(v) => v as u8,
            None => {
                return Err(String::from_str("Invalid factory index"));
            },
        };
        let color = match parse_uint_exec(bytes, 1, 2, 255) {
            Some(v) => TileColor::from_u8(v as u8),
            None => {
                return Err(String::from_str("Invalid color"));
            },
        };
        let pattern_line_index = match parse_uint_exec(bytes, 2, 3, 255) {
            Some(v) => v as u8,
            None => {
                return Err(String::from_str("Invalid pattern line index"));
            },
        };
        let discards = match parse_uint_exec(bytes, 3, 5, 255) {
            Some(v) => v as u8,
            None => {
                return Err(String::from_str("Invalid discards"));
            },
        };
        let places = match parse_uint_exec(bytes, 5, 7, 255) {
            Some(v) => v as u8,
            None => {
                return Err(String::from_str("Invalid places"));
            },
        };
        Ok(Move { factory_index, color, pattern_line_index, discards, places })
    }

    /// Whether the move only puts tiles on the floor line.
    pub fn is_discard_only(&self) -> (r: bool)
        ensures
            r == (self.places == 0),
    {
        self.places == 0
    }

    /// Number of tiles the move takes.
    pub fn tiles_taken(&self) -> (n: u8)
        requires
            self.discards + self.places <= 255,
        ensures
            n == self.discards + self.places,
    {
        self.discards + self.places
    }

    /// The move as shown to a player.
    #[verifier::rlimit(40)]
    pub fn to_display_string(&self) -> (s: String)
        requires
            move_displayable(*self),
        ensures
            s@ == move_display(*self),
    {
        if *self == Move::dummy() {
            return String::from_str("Dummy Move");
        }
        let ghost m = *self;
        let ghost factory_part = if m.factory_index == 5 {
            seq!['c']
        } else {
            dec((m.factory_index + 1) as nat)
        };
        let ghost place_part = if m.places > 0 {
            dec(m.places as nat) + seq!['@'] + dec((m.pattern_line_index + 1) as nat)
        } else {
            Seq::empty()
        };
        let ghost space_part = if m.places > 0 && m.discards > 0 {
            seq![' ']
        } else {
            Seq::empty()
        };
        let ghost discard_part = if m.discards > 0 {
            seq!['D'] + dec(m.discards as nat)
        } else {
            Seq::empty()
        };
        let mut s = String::new();
        push_decimal(&mut s, (self.discards + self.places) as u128);
        let c = self.color.to_display_string();
        s.append(c.as_str());
        let ghost s1 = s@;
        if self.factory_index as usize == CENTER_FACTORY_INDEX {
            push_char(&mut s, 'c');
        } else {
            push_decimal(&mut s, (self.factory_index + 1) as u128);
        }
        assert(s@ =~= s1 + factory_part);
        push_char(&mut s, '-');
        push_char(&mut s, '>');
        let ghost s2 = s@;
        if self.places > 0 {
            push_decimal(&mut s, self.places as u128);
            push_char(&mut s, '@');
            push_decimal(&mut s, (self.pattern_line_index + 1) as u128);
        }
        assert(s@ =~= s2 + place_part);
        let ghost s3 = s@;
        if self.places > 0 && self.discards > 0 {
            push_char(&mut s, ' ');
        }
        assert(s@ =~= s3 + space_part);
        let ghost s4 = s@;
        if self.discards > 0 {
            push_char(&mut s, 'D');
            push_decimal(&mut s, self.discards as u128);
        }
        assert(s@ =~= s4 + discard_part);
        assert(s@ =~= move_display(m));
        s
    }
}

/// Whether each field of a move fits the digits its text gives it: one
/// digit for the factory and the pattern line, two for discards and places.
pub open spec fn move_text_fits(m: Move) -> bool {
    m.factory_index < 10 && m.pattern_line_index < 10 && m.discards < 100 && m.places < 100
}

/// The two-digit text of a number below 100 reads back as that number.
proof fn lemma_parse_dec2(n: nat)
    requires
        n < 100,
    ensures
        ascii(dec2(n)).len() == 2,
        parse_uint(ascii(dec2(n)), 255) == Some(n),
        is_ascii_chars(dec2(n)),
{
    lemma_dec_ascii(n);
    if n < 10 {
        lemma_dec_digits(n);
        let t = ascii(dec2(n));
        assert(t =~= seq![48u8, ascii(dec(n))[0]]);
        assert(number_digits(t) == t);
        assert(t.drop_last() =~= seq![48u8]);
        assert(seq![48u8].drop_last() =~= Seq::<u8>::empty());
        assert(digits_value(Seq::<u8>::empty()) == 0);
        assert(digits_value(seq![48u8]) == digits_value(Seq::<u8>::empty()) * 10 + 0);
        assert(all_digits(t)) by {
            assert(is_digit(t[0]) && is_digit(t[1]));
        }
        assert(digits_value(t) == n);
        assert(is_ascii_chars(dec2(n))) by {
            assert(dec2(n) =~= seq!['0'] + dec(n));
        }
    } else {
        lemma_parse_dec(n, 255);
        lemma_dec_digits(n);
        assert(dec(n) =~= dec(n / 10) + seq![crate::text::digit_char((n % 10) as int)]);
        assert(dec(n / 10).len() == 1);
    }
}

/// Reading the text of a move gives the move back, where each field fits
/// its digits; the text can be cut at its fields and names a color.
pub proof fn lemma_move_text_roundtrip(m: Move)
    requires
        move_text_fits(m),
    ensures
        move_text_cuts_ok(encode_utf8(move_text(m))),
        !move_text_bad_color(encode_utf8(move_text(m))),
        move_from_text(encode_utf8(move_text(m))) == Ok::<Move, Seq<char>>(m),
{
    let f = m.factory_index as nat;
    let c = color_index(m.color) as nat;
    let l = m.pattern_line_index as nat;
    lemma_color_index_roundtrip(m.color);
    lemma_parse_dec(f, 255);
    lemma_parse_dec(c, 255);
    lemma_parse_dec(l, 255);
    lemma_dec_digits(f);
    lemma_dec_digits(c);
    lemma_dec_digits(l);
    lemma_dec_ascii(f);
    lemma_dec_ascii(c);
    lemma_dec_ascii(l);
    lemma_parse_dec2(m.discards as nat);
    lemma_parse_dec2(m.places as nat);
    let t = move_text(m);
    assert(dec(f).len() == 1 && dec(c).len() == 1 && dec(l).len() == 1);
    assert(is_ascii_chars(t)) by {
        assert forall|i: int| 0 <= i < t.len() implies '\0' <= #[trigger] t[i] <= '\u{7f}' by {
            if i < 1 {
                assert(t[i] == dec(f)[i]);
            } else if i < 2 {
                assert(t[i] == dec(c)[i - 1]);
            } else if i < 3 {
                assert(t[i] == dec(l)[i - 2]);
            } else if i < 5 {
                assert(t[i] == dec2(m.discards as nat)[i - 3]);
            } else {
                assert(t[i] == dec2(m.places as nat)[i - 5]);
            }
        }
    }
    is_ascii_chars_encode_utf8(t);
    let b = encode_utf8(t);
    assert(b =~= ascii(t));
    assert(ascii(t) =~= ascii(dec(f)) + ascii(dec(c)) + ascii(dec(l)) + ascii(dec2(m.discards as nat)) + ascii(
        dec2(m.places as nat),
    ));
    assert(b.len() == 7);
    assert(b.subrange(0, 1) =~= ascii(dec(f)));
    assert(b.subrange(1, 2) =~= ascii(dec(c)));
    assert(b.subrange(2, 3) =~= ascii(dec(l)));
    assert(b.subrange(3, 5) =~= ascii(dec2(m.discards as nat)));
    assert(b.subrange(5, 7) =~= ascii(dec2(m.places as nat)));
    encode_utf8_valid_utf8(t);
    assert forall|i: int| 1 <= i < 7 implies is_char_boundary(b, i) by {
        is_char_boundary_iff_not_is_continuation_byte(b, i);
        assert(b[i] == t[i] as u8);
    }
    is_char_boundary_start_end_of_seq(b);
    assert(is_char_boundary(b, 7));
    assert(field(b, 0, 1) == Some(f));
    assert(field(b, 1, 2) == Some(c));
    let r = move_from_text(b);
    assert(r == Ok::<Move, Seq<char>>(m));
}

} // verus!
