//! The cue encoder: from the text of one cue to the caption frames that load
//! it into the decoder and put it on display.

use vstd::prelude::*;
use vstd::std_specs::iter::IteratorSpec;
use crate::cea608::{
    eia608_from_utf8_1, is_basicna, is_basicna_spec, is_specialna, is_specialna_spec, is_westeu,
    is_westeu_spec, basicna_pair, CodeTable, COLUMNS,
};
use crate::frame::{
    bna_buffer, buffer_from_cc_data, doubled, end_of_caption, erase_non_displayed_memory,
    preamble_buffer, resume_caption_loading, CaptionFrame,
};

verus! {

/// The row on which a caption starts.
pub const FIRST_ROW: i32 = 13;

/// The last row of the screen; text that would go below it is left out.
pub const LAST_ROW: i32 = 14;

/// What the encoder met in a text and went on from.
#[derive(Clone, Copy, Debug, PartialEq, Eq)]
pub enum Warning {
    /// The character has no code; a blank stands in its place.
    Untranslated(char),
    /// The character stood behind the last column of its row and was left out.
    ColumnOverflow(char),
}

/// How far the encoding of a text has come.
pub struct Progress {
    /// The frames emitted so far.
    pub frames: Seq<CaptionFrame>,
    /// The warnings given so far.
    pub warnings: Seq<Warning>,
    /// A basic North American character that waits for a partner.
    pub pending: Option<u16>,
    /// The row that is being written.
    pub row: int,
    /// The number of characters written to that row.
    pub col: int,
    /// Whether the text has run below the last row; the rest of it is left out.
    pub done: bool,
}

/// `frames`, followed by the character that waits in `pending`, alone in its
/// frame.
pub open spec fn flush_pending(frames: Seq<CaptionFrame>, pending: Option<u16>) -> Seq<
    CaptionFrame,
> {
    match pending {
        Some(prev_char) => frames.push(CaptionFrame::unscheduled(prev_char)),
        None => frames,
    }
}

/// The frames and the waiting character after the code `cc_data` has been
/// written behind `frames` and `pending`.
///
/// Two basic North American characters share a frame. A West European
/// character replaces the character before it, so a blank goes first: paired
/// with a waiting character, or alone. Any other code is emitted on its own,
/// after the character that waited. A special North American character is
/// followed by the command that resumes caption loading.
pub open spec fn place_character(
    table: &CodeTable,
    frames: Seq<CaptionFrame>,
    pending: Option<u16>,
    cc_data: u16,
) -> (Seq<CaptionFrame>, Option<u16>) {
    let placed = match pending {
        Some(prev_char) => if is_basicna_spec(cc_data) {
            (frames.push(CaptionFrame::unscheduled(basicna_pair(prev_char, cc_data))), None)
        } else if is_westeu_spec(cc_data) {
            (
                frames.push(CaptionFrame::unscheduled(basicna_pair(prev_char, table.space()))).push(
                    CaptionFrame::unscheduled(cc_data),
                ),
                None,
            )
        } else {
            (
                frames.push(CaptionFrame::unscheduled(prev_char)).push(
                    CaptionFrame::unscheduled(cc_data),
                ),
                None,
            )
        },
        None => if is_westeu_spec(cc_data) {
            (
                frames.push(CaptionFrame::unscheduled(table.space())).push(
                    CaptionFrame::unscheduled(cc_data),
                ),
                None,
            )
        } else if is_basicna_spec(cc_data) {
            (frames, Some(cc_data))
        } else {
            (frames.push(CaptionFrame::unscheduled(cc_data)), None)
        },
    };
    if is_specialna_spec(cc_data) {
        (placed.0 + doubled(table.resume_caption_loading), placed.1)
    } else {
        placed
    }
}

/// The code written for the character `c`: its own, or that of a blank where
/// it has none.
pub open spec fn code_or_space(table: &CodeTable, c: char) -> u16 {
    if table.code_of(c) == 0 {
        table.space()
    } else {
        table.code_of(c)
    }
}

/// The progress after the character `c`.
///
/// A line feed emits the waiting character and starts the next row with its
/// preamble, or ends the text where there is no next row. A carriage return is
/// passed over. Any other character is written while its row has a column
/// left, and is left out with a warning where it has none.
pub open spec fn encode_char(table: &CodeTable, p: Progress, c: char) -> Progress {
    if p.done {
        p
    } else if c == '\n' {
        if p.row + 1 > LAST_ROW {
            Progress { frames: flush_pending(p.frames, p.pending), pending: None, done: true, ..p }
        } else {
            Progress {
                frames: flush_pending(p.frames, p.pending) + doubled(table.preamble(p.row + 1, 0)),
                pending: None,
                row: p.row + 1,
                col: 0,
                ..p
            }
        }
    } else if c == '\r' {
        p
    } else if p.col >= COLUMNS {
        Progress { warnings: p.warnings.push(Warning::ColumnOverflow(c)), ..p }
    } else {
        let placed = place_character(table, p.frames, p.pending, code_or_space(table, c));
        Progress {
            frames: placed.0,
            warnings: if table.code_of(c) == 0 {
                p.warnings.push(Warning::Untranslated(c))
            } else {
                p.warnings
            },
            pending: placed.1,
            col: p.col + 1,
            ..p
        }
    }
}

/// The progress after the characters of `text`, one after the other.
pub open spec fn encode_chars(table: &CodeTable, p: Progress, text: Seq<char>) -> Progress
    decreases text.len(),
{
    if text.len() == 0 {
        p
    } else {
        encode_char(table, encode_chars(table, p, text.drop_last()), text.last())
    }
}

/// The progress before the first character of a cue: the commands that open
/// the memory that is not on display and clear it, and the preamble of the
/// first row.
pub open spec fn start_of_cue(table: &CodeTable) -> Progress {
    Progress {
        frames: doubled(table.resume_caption_loading) + doubled(table.erase_non_displayed_memory)
            + doubled(table.preamble(FIRST_ROW as int, 0)),
        warnings: Seq::empty(),
        pending: None,
        row: FIRST_ROW as int,
        col: 0,
        done: false,
    }
}

/// The progress at the end of the cue `text`.
pub open spec fn end_of_text(table: &CodeTable, text: Seq<char>) -> Progress {
    encode_chars(table, start_of_cue(table), text)
}

/// The frames of the cue `text`, in the order in which they are sent: the
/// frames of its characters, the character that still waits, and the command
/// that puts the caption on display.
pub open spec fn cue_frames(table: &CodeTable, text: Seq<char>) -> Seq<CaptionFrame> {
    let end = end_of_text(table, text);
    flush_pending(end.frames, end.pending) + doubled(table.end_of_caption)
}

/// The warnings that the cue `text` gives, in the order of its characters.
pub open spec fn cue_warnings(table: &CodeTable, text: Seq<char>) -> Seq<Warning> {
    end_of_text(table, text).warnings
}

/// Encoding a text in two parts gives what encoding it in one gives.
pub proof fn lemma_encode_chars_append(
    table: &CodeTable,
    p: Progress,
    head: Seq<char>,
    tail: Seq<char>,
)
    ensures
        encode_chars(table, p, head + tail) == encode_chars(
            table,
            encode_chars(table, p, head),
            tail,
        ),
    decreases tail.len(),
{
    if tail.len() == 0 {
        assert(head + tail =~= head);
    } else {
        assert((head + tail).drop_last() =~= head + tail.drop_last());
        assert((head + tail).last() == tail.last());
        lemma_encode_chars_append(table, p, head, tail.drop_last());
    }
}

/// Below the last row nothing more is written.
pub proof fn lemma_done_is_final(table: &CodeTable, p: Progress, text: Seq<char>)
    requires
        p.done,
    ensures
        encode_chars(table, p, text) == p,
    decreases text.len(),
{
    if text.len() > 0 {
        lemma_done_is_final(table, p, text.drop_last());
    }
}

/// A cue without text is its commands and nothing else: the command that
/// resumes caption loading, the command that erases the memory that is not on
/// display, the preamble of the first row and the command that ends the
/// caption, each doubled.
pub proof fn lemma_empty_cue(table: &CodeTable)
    ensures
        cue_frames(table, Seq::empty()) == doubled(table.resume_caption_loading) + doubled(
            table.erase_non_displayed_memory,
        ) + doubled(table.preamble(FIRST_ROW as int, 0)) + doubled(table.end_of_caption),
        cue_frames(table, Seq::empty()).len() == 8,
        cue_warnings(table, Seq::empty()) == Seq::<Warning>::empty(),
{
}

/// A basic North American character with a West European character behind it
/// is emitted as the frame that pairs it with a blank, and then the West
/// European character in a frame of its own.
pub proof fn lemma_basic_then_western(table: &CodeTable, basic: char, western: char)
    requires
        basic != '\n' && basic != '\r',
        western != '\n' && western != '\r',
        is_basicna_spec(table.code_of(basic)),
        is_westeu_spec(table.code_of(western)),
    ensures
        cue_frames(table, seq![basic, western]) == start_of_cue(table).frames + seq![
            CaptionFrame::unscheduled(basicna_pair(table.code_of(basic), table.space())),
            CaptionFrame::unscheduled(table.code_of(western)),
        ] + doubled(table.end_of_caption),
        cue_warnings(table, seq![basic, western]) == Seq::<Warning>::empty(),
{
    let start = start_of_cue(table);
    let text = seq![basic, western];
    let first = encode_char(table, start, basic);
    let second = encode_char(table, first, western);
    crate::cea608::lemma_classes_disjoint(table.code_of(basic));
    crate::cea608::lemma_classes_disjoint(table.code_of(western));
    assert(0x0000 == (0x6000 & 0u16)) by (bit_vector);
    assert(0x1220 != (0x7660 & 0u16)) by (bit_vector);
    assert(text.drop_last() =~= seq![basic]);
    assert(seq![basic].drop_last() =~= Seq::<char>::empty());
    assert(encode_chars(table, start, Seq::<char>::empty()) == start);
    assert(seq![basic].last() == basic);
    assert(encode_chars(table, start, seq![basic]) == first);
    assert(text.last() == western);
    assert(encode_chars(table, start, text) == second);
    assert(first.frames == start.frames);
    assert(first.pending == Some(table.code_of(basic)));
    assert(cue_frames(table, text) =~= start.frames + seq![
        CaptionFrame::unscheduled(basicna_pair(table.code_of(basic), table.space())),
        CaptionFrame::unscheduled(table.code_of(western)),
    ] + doubled(table.end_of_caption));
}

/// A row that is full takes no more: a character behind its last column
/// changes neither the frames nor the position, and a line feed on a row
/// above the last starts the next row at its first column.
pub proof fn lemma_full_row(table: &CodeTable, p: Progress, c: char)
    requires
        !p.done,
    ensures
        p.col >= COLUMNS && c != '\n' ==> {
            &&& encode_char(table, p, c).frames == p.frames
            &&& encode_char(table, p, c).pending == p.pending
            &&& encode_char(table, p, c).row == p.row
            &&& encode_char(table, p, c).col == p.col
            &&& !encode_char(table, p, c).done
        },
        c == '\n' && p.row < LAST_ROW ==> {
            &&& encode_char(table, p, c).col == 0
            &&& encode_char(table, p, c).row == p.row + 1
        },
{
}

/// The progress through a text of one row: the column counts its characters
/// up to the last column, and from there on nothing changes but the
/// warnings.
proof fn lemma_one_row(table: &CodeTable, text: Seq<char>, n: int)
    requires
        0 <= n <= text.len(),
        forall|i: int| 0 <= i < text.len() ==> text[i] != '\n' && text[i] != '\r',
    ensures
        !end_of_text(table, text.take(n)).done,
        end_of_text(table, text.take(n)).row == FIRST_ROW,
        end_of_text(table, text.take(n)).col == if n <= COLUMNS {
            n
        } else {
            COLUMNS as int
        },
        n >= COLUMNS ==> end_of_text(table, text.take(n)).frames == end_of_text(
            table,
            text.take(COLUMNS as int),
        ).frames,
        n >= COLUMNS ==> end_of_text(table, text.take(n)).pending == end_of_text(
            table,
            text.take(COLUMNS as int),
        ).pending,
    decreases n,
{
    if n > 0 {
        lemma_one_row(table, text, n - 1);
        assert(text.take(n).drop_last() =~= text.take(n - 1));
        assert(text.take(n).last() == text[n - 1]);
    }
}

/// Of a row of text only the first characters are written, as many as the row
/// has columns: a text of one row that is longer than that yields the frames
/// of its beginning.
pub proof fn lemma_row_budget(table: &CodeTable, text: Seq<char>)
    requires
        text.len() >= COLUMNS,
        forall|i: int| 0 <= i < text.len() ==> text[i] != '\n' && text[i] != '\r',
    ensures
        cue_frames(table, text) == cue_frames(table, text.take(COLUMNS as int)),
{
    lemma_one_row(table, text, text.len() as int);
    assert(text.take(text.len() as int) =~= text);
}

/// Writes the code `cc_data` behind `buffers` and the waiting character.
fn push_character(
    table: &CodeTable,
    buffers: &mut Vec<CaptionFrame>,
    pending: &mut Option<u16>,
    cc_data: u16,
    space: u16,
)
    requires
        space == table.space(),
    ensures
        (final(buffers)@, *final(pending)) == place_character(
            table,
            old(buffers)@,
            *old(pending),
            cc_data,
        ),
{
    match *pending {
        Some(prev_char) => {
            if is_basicna(cc_data) {
                bna_buffer(buffers, prev_char, cc_data);
            } else if is_westeu(cc_data) {
                bna_buffer(buffers, prev_char, space);
                buffers.push(buffer_from_cc_data(cc_data));
            } else {
                buffers.push(buffer_from_cc_data(prev_char));
                buffers.push(buffer_from_cc_data(cc_data));
            }
            *pending = None;
        },
        None => {
            if is_westeu(cc_data) {
                buffers.push(buffer_from_cc_data(space));
                buffers.push(buffer_from_cc_data(cc_data));
            } else if is_basicna(cc_data) {
                *pending = Some(cc_data);
            } else {
                buffers.push(buffer_from_cc_data(cc_data));
            }
        },
    }

    if is_specialna(cc_data) {
        resume_caption_loading(table, buffers);
    }
}

/// Encodes the text of one cue: the frames that load it, in the order in which
/// they are sent and without a time yet, and the warnings that it gave.
pub fn encode_text(table: &CodeTable, text: &str) -> (encoded: (Vec<CaptionFrame>, Vec<Warning>))
    requires
        table.wf(),
    ensures
        encoded.0@ == cue_frames(table, text@),
        encoded.1@ == cue_warnings(table, text@),
{
    broadcast use vstd::string::group_string_axioms;

    let mut row: i32 = FIRST_ROW;
    let mut col: i32 = 0;
    let mut buffers: Vec<CaptionFrame> = Vec::new();
    let mut warnings: Vec<Warning> = Vec::new();

    resume_caption_loading(table, &mut buffers);
    erase_non_displayed_memory(table, &mut buffers);
    preamble_buffer(table, &mut buffers, row, 0);

    let space: u16 = eia608_from_utf8_1(table, ' ');
    let mut prev_char: Option<u16> = None;
    let mut chars = text.chars();
    let ghost mut seen: Seq<char> = Seq::empty();
    let ghost mut p: Progress = start_of_cue(table);
    assert(buffers@ =~= p.frames);

    loop
        invariant_except_break
            !p.done,
            seen + chars.remaining() == text@,
            p == encode_chars(table, start_of_cue(table), seen),
        invariant
            table.wf(),
            space == table.space(),
            chars.obeys_prophetic_iter_laws(),
            chars.decrease() is Some,
            buffers@ == p.frames,
            warnings@ == p.warnings,
            prev_char == p.pending,
            row == p.row,
            col == p.col,
            FIRST_ROW <= row <= LAST_ROW,
            0 <= col <= COLUMNS,
        ensures
            p == end_of_text(table, text@),
        decreases chars.decrease()->0,
    {
        let ghost before = chars.remaining();
        let next: Option<char> = chars.next();
        let c: char = match next {
            Some(c) => c,
            None => {
                proof {
                    assert(seen =~= text@);
                }
                break ;
            },
        };
        proof {
            assert(seen.push(c).drop_last() =~= seen);
            assert(seen.push(c) + chars.remaining() =~= seen + before);
        }
        let ghost q: Progress = encode_char(table, p, c);

        if c == '\n' {
            if let Some(pending) = prev_char {
                buffers.push(buffer_from_cc_data(pending));
                prev_char = None;
            }
            if row + 1 > LAST_ROW {
                proof {
                    p = q;
                    lemma_encode_chars_append(
                        table,
                        start_of_cue(table),
                        seen.push(c),
                        chars.remaining(),
                    );
                    lemma_done_is_final(table, q, chars.remaining());
                }
                break ;
            }
            row += 1;
            preamble_buffer(table, &mut buffers, row, 0);
            col = 0;
        } else if c == '\r' {
        } else if col >= COLUMNS {
            warnings.push(Warning::ColumnOverflow(c));
        } else {
            let mut cc_data: u16 = eia608_from_utf8_1(table, c);
            if cc_data == 0 {
                warnings.push(Warning::Untranslated(c));
                cc_data = space;
            }
            push_character(table, &mut buffers, &mut prev_char, cc_data, space);
            col += 1;
        }
        proof {
            p = q;
            seen = seen.push(c);
        }
    }

    if let Some(pending) = prev_char {
        buffers.push(buffer_from_cc_data(pending));
    }
    end_of_caption(table, &mut buffers);

    (buffers, warnings)
}

} // verus!
