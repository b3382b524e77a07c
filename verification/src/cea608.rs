//! CEA-608 codes: the classes that decide how characters are packed into byte
//! pairs, and the code table from which the encoder draws every code it emits.

use vstd::prelude::*;

verus! {

/// Rows of a caption screen; rows are numbered from zero.
pub const ROWS: i32 = 15;

/// Columns of a caption row; columns are numbered from zero.
pub const COLUMNS: i32 = 32;

/// Whether `cc_data` is a basic North American character: one that shares a
/// byte pair with another character of its class.
pub open spec fn is_basicna_spec(cc_data: u16) -> bool {
    0x0000 != (0x6000 & cc_data)
}

/// Whether `cc_data` is a West European character: one that replaces the
/// character before it on the screen.
pub open spec fn is_westeu_spec(cc_data: u16) -> bool {
    0x1220 == (0x7660 & cc_data)
}

/// Whether `cc_data` is a special North American character.
pub open spec fn is_specialna_spec(cc_data: u16) -> bool {
    0x1130 == (0x7770 & cc_data)
}

/// The byte pair that holds the two basic North American characters `bna1`
/// and `bna2`: the first byte of each, in that order.
pub open spec fn basicna_pair(bna1: u16, bna2: u16) -> u16 {
    (0xff00 & bna1) | (bna2 >> 8)
}

pub fn is_basicna(cc_data: u16) -> (basic: bool)
    ensures
        basic == is_basicna_spec(cc_data),
{
    0x0000 != (0x6000 & cc_data)
}

pub fn is_westeu(cc_data: u16) -> (western: bool)
    ensures
        western == is_westeu_spec(cc_data),
{
    0x1220 == (0x7660 & cc_data)
}

pub fn is_specialna(cc_data: u16) -> (special: bool)
    ensures
        special == is_specialna_spec(cc_data),
{
    0x1130 == (0x7770 & cc_data)
}

/// The three character classes exclude one another.
pub proof fn lemma_classes_disjoint(cc_data: u16)
    ensures
        !(is_basicna_spec(cc_data) && is_westeu_spec(cc_data)),
        !(is_basicna_spec(cc_data) && is_specialna_spec(cc_data)),
        !(is_westeu_spec(cc_data) && is_specialna_spec(cc_data)),
{
    assert(!(0x0000 != (0x6000 & cc_data) && 0x1220 == (0x7660 & cc_data))) by (bit_vector);
    assert(!(0x0000 != (0x6000 & cc_data) && 0x1130 == (0x7770 & cc_data))) by (bit_vector);
    assert(!(0x1220 == (0x7660 & cc_data) && 0x1130 == (0x7770 & cc_data))) by (bit_vector);
}

/// Packs two basic North American characters into one byte pair.
pub fn eia608_from_basicna(bna1: u16, bna2: u16) -> (cc_data: u16)
    ensures
        cc_data == basicna_pair(bna1, bna2),
{
    (0xff00 & bna1) | (bna2 >> 8)
}

/// A pair of basic North American characters keeps the first byte of each.
pub proof fn lemma_basicna_pair_bytes(bna1: u16, bna2: u16)
    ensures
        basicna_pair(bna1, bna2) >> 8 == bna1 >> 8,
        basicna_pair(bna1, bna2) & 0xff == bna2 >> 8,
        is_basicna_spec(bna1) ==> is_basicna_spec(basicna_pair(bna1, bna2)),
{
    assert(((0xff00 & bna1) | (bna2 >> 8)) >> 8 == bna1 >> 8) by (bit_vector);
    assert(((0xff00 & bna1) | (bna2 >> 8)) & 0xff == bna2 >> 8) by (bit_vector);
    assert(0x0000 != (0x6000 & bna1) ==> 0x0000 != (0x6000 & ((0xff00 & bna1) | (bna2 >> 8))))
        by (bit_vector);
}

/// The control commands that the encoder emits.
#[derive(Clone, Copy, Debug, PartialEq, Eq)]
pub enum ControlCommand {
    ResumeCaptionLoading,
    EraseDisplayMemory,
    EraseNonDisplayedMemory,
    EndOfCaption,
}

/// One entry of the character table: a Unicode scalar and its CEA-608 code.
#[derive(Clone, Copy, Debug, PartialEq, Eq)]
pub struct CharCode {
    pub ch: char,
    pub code: u16,
}

/// The code of the first entry of `entries` for the character `c`, or zero
/// where no entry is for `c`.
pub open spec fn lookup_code(entries: Seq<CharCode>, c: char) -> u16
    decreases entries.len(),
{
    if entries.len() == 0 {
        0
    } else if entries[0].ch == c {
        entries[0].code
    } else {
        lookup_code(entries.drop_first(), c)
    }
}

/// The codes of a caption service, as plain data: the code of each character
/// that has one, the code of each control command, and the preamble code of
/// each screen position.
pub struct CodeTable {
    /// The characters that have a code. A character may be listed once; of
    /// several entries for one character the first counts.
    pub chars: Vec<CharCode>,
    pub resume_caption_loading: u16,
    pub erase_display_memory: u16,
    pub erase_non_displayed_memory: u16,
    pub end_of_caption: u16,
    /// The preamble codes, row by row: the code for `row` and `col` stands at
    /// `row * COLUMNS + col`.
    pub preambles: Vec<u16>,
}

impl CodeTable {
    /// A table is well formed when it holds a preamble for every position.
    pub open spec fn wf(&self) -> bool {
        self.preambles@.len() == ROWS * COLUMNS
    }

    /// Whether the table holds a preamble for every position.
    pub fn is_complete(&self) -> (complete: bool)
        ensures
            complete == self.wf(),
    {
        self.preambles.len() == (ROWS * COLUMNS) as usize
    }

    /// The code of the character `c`, zero where the table has none.
    pub open spec fn code_of(&self, c: char) -> u16 {
        lookup_code(self.chars@, c)
    }

    /// The code that stands for a blank column.
    pub open spec fn space(&self) -> u16 {
        self.code_of(' ')
    }

    /// The code of the control command `cmd`.
    pub open spec fn command(&self, cmd: ControlCommand) -> u16 {
        match cmd {
            ControlCommand::ResumeCaptionLoading => self.resume_caption_loading,
            ControlCommand::EraseDisplayMemory => self.erase_display_memory,
            ControlCommand::EraseNonDisplayedMemory => self.erase_non_displayed_memory,
            ControlCommand::EndOfCaption => self.end_of_caption,
        }
    }

    /// The preamble code that moves the cursor to `row` and `col`.
    pub open spec fn preamble(&self, row: int, col: int) -> u16 {
        self.preambles@[row * COLUMNS + col]
    }
}

/// Looks up the code of the character `c`; zero says that it has none.
pub fn eia608_from_utf8_1(table: &CodeTable, c: char) -> (cc_data: u16)
    ensures
        cc_data == table.code_of(c),
{
    let mut i: usize = 0;
    proof {
        assert(table.chars@.skip(0) =~= table.chars@);
    }
    while i < table.chars.len()
        invariant
            i <= table.chars@.len(),
            lookup_code(table.chars@, c) == lookup_code(table.chars@.skip(i as int), c),
        decreases table.chars@.len() - i,
    {
        let entry = table.chars[i];
        if entry.ch == c {
            return entry.code;
        }
        proof {
            assert(table.chars@.skip(i as int).drop_first() =~= table.chars@.skip(i as int + 1));
        }
        i += 1;
    }
    0
}

/// The preamble code for `row` and `col`.
pub fn eia608_row_column_preamble(table: &CodeTable, row: i32, col: i32) -> (cc_data: u16)
    requires
        table.wf(),
        0 <= row < ROWS,
        0 <= col < COLUMNS,
    ensures
        cc_data == table.preamble(row as int, col as int),
{
    let index: usize = (row * COLUMNS + col) as usize;
    table.preambles[index]
}

/// The code of the control command `cmd`.
pub fn eia608_control_command(table: &CodeTable, cmd: ControlCommand) -> (cc_data: u16)
    ensures
        cc_data == table.command(cmd),
{
    match cmd {
        ControlCommand::ResumeCaptionLoading => table.resume_caption_loading,
        ControlCommand::EraseDisplayMemory => table.erase_display_memory,
        ControlCommand::EraseNonDisplayedMemory => table.erase_non_displayed_memory,
        ControlCommand::EndOfCaption => table.end_of_caption,
    }
}

} // verus!
