use tttocea608::cea608::{
    eia608_control_command, eia608_from_basicna, eia608_from_utf8_1, eia608_row_column_preamble,
    is_basicna, is_specialna, is_westeu, CharCode, CodeTable, ControlCommand,
};
use tttocea608::encoder::{encode_text, Warning};
use tttocea608::frame::{
    bna_buffer, buffer_from_cc_data, control_command_buffer, end_of_caption,
    erase_display_memory, erase_non_displayed_memory, preamble_buffer, resume_caption_loading,
    CaptionFrame,
};

const RCL: u16 = 0x9420;
const EDM: u16 = 0x942c;
const ENM: u16 = 0x94ae;
const EOC: u16 = 0x942f;
const ROW_13: u16 = 0x94d0;
const ROW_14: u16 = 0x9470;
const SPACE: u16 = 0x2080;

fn parity_byte(byte: u8) -> u16 {
    let low = byte & 0x7f;
    if low.count_ones() % 2 == 0 {
        (low | 0x80) as u16
    } else {
        low as u16
    }
}

fn parity(cc_data: u16) -> u16 {
    (parity_byte((cc_data >> 8) as u8) << 8) | parity_byte(cc_data as u8)
}

fn preamble(row: u16, col: u16) -> u16 {
    let rows: [u16; 15] = [
        0x1140, 0x1160, 0x1240, 0x1260, 0x1540, 0x1560, 0x1640, 0x1660, 0x1740, 0x1760, 0x1040,
        0x1340, 0x1360, 0x1440, 0x1460,
    ];
    parity(rows[row as usize] | 0x10 | ((col / 4) << 1))
}

fn table() -> CodeTable {
    let mut chars = Vec::new();
    for byte in 0x20u8..0x7f {
        let ch = byte as char;
        if !"*\\^_`{|}~".contains(ch) {
            chars.push(CharCode { ch, code: parity((byte as u16) << 8) });
        }
    }
    chars.push(CharCode { ch: 'á', code: parity(0x2a00) });
    chars.push(CharCode { ch: 'é', code: parity(0x5c00) });
    chars.push(CharCode { ch: '®', code: parity(0x1130) });
    chars.push(CharCode { ch: '♪', code: parity(0x1137) });
    chars.push(CharCode { ch: 'Á', code: parity(0x1220) });
    chars.push(CharCode { ch: 'ü', code: parity(0x1225) });
    chars.push(CharCode { ch: 'ã', code: parity(0x1321) });
    chars.push(CharCode { ch: '¥', code: parity(0x1335) });
    chars.push(CharCode { ch: 'a', code: 0xffff });
    let mut preambles = Vec::new();
    for row in 0..15u16 {
        for col in 0..32u16 {
            preambles.push(preamble(row, col));
        }
    }
    CodeTable {
        chars,
        resume_caption_loading: parity(0x1420),
        erase_display_memory: parity(0x142c),
        erase_non_displayed_memory: parity(0x142e),
        end_of_caption: parity(0x142f),
        preambles,
    }
}

fn codes(frames: &[CaptionFrame]) -> Vec<u16> {
    for frame in frames {
        assert_eq!(frame.pts, None);
        assert_eq!(frame.duration, None);
    }
    frames.iter().map(|frame| frame.cc_data).collect()
}

fn encode(text: &str) -> (Vec<u16>, Vec<Warning>) {
    let (frames, warnings) = encode_text(&table(), text);
    (codes(&frames), warnings)
}

fn skeleton(body: &[u16]) -> Vec<u16> {
    let mut all = vec![RCL, RCL, ENM, ENM, ROW_13, ROW_13];
    all.extend_from_slice(body);
    all.extend_from_slice(&[EOC, EOC]);
    all
}

#[test]
fn test_table_holds_the_usual_codes() {
    let table = table();
    assert_eq!(table.resume_caption_loading, RCL);
    assert_eq!(table.erase_display_memory, EDM);
    assert_eq!(table.erase_non_displayed_memory, ENM);
    assert_eq!(table.end_of_caption, EOC);
    assert_eq!(table.preambles[13 * 32], ROW_13);
    assert_eq!(table.preambles[14 * 32], ROW_14);
    assert_eq!(eia608_from_utf8_1(&table, ' '), SPACE);
}

#[test]
fn a_table_is_complete_with_a_preamble_for_every_position() {
    let full = table();
    assert!(full.is_complete());
    let mut short = table();
    short.preambles.pop();
    assert!(!short.is_complete());
    let mut long = table();
    long.preambles.push(0);
    assert!(!long.is_complete());
    assert!(!CodeTable { preambles: Vec::new(), ..full }.is_complete());
}

#[test]
fn basic_north_american_codes_are_told_by_their_first_byte() {
    assert!(is_basicna(0x2000));
    assert!(is_basicna(0x4000));
    assert!(is_basicna(0x6000));
    assert!(is_basicna(0xc880));
    assert!(is_basicna(0x2080));
    assert!(!is_basicna(0x0000));
    assert!(!is_basicna(0x1fff));
    assert!(!is_basicna(0x9420));
    assert!(!is_basicna(0x9220));
    assert!(!is_basicna(0x91b0));
}

#[test]
fn west_european_codes_are_told_by_both_bytes() {
    assert!(is_westeu(0x1220));
    assert!(is_westeu(0x123f));
    assert!(is_westeu(0x1320));
    assert!(is_westeu(0x133f));
    assert!(is_westeu(0x9220));
    assert!(is_westeu(0x13a1));
    assert!(is_westeu(0x1a20));
    assert!(!is_westeu(0x1240));
    assert!(!is_westeu(0x1130));
    assert!(!is_westeu(0x1420));
    assert!(!is_westeu(0x3220));
    assert!(!is_westeu(0x0000));
}

#[test]
fn special_north_american_codes_are_told_by_both_bytes() {
    assert!(is_specialna(0x1130));
    assert!(is_specialna(0x113f));
    assert!(is_specialna(0x91b0));
    assert!(is_specialna(0x9137));
    assert!(is_specialna(0x1930));
    assert!(!is_specialna(0x1120));
    assert!(!is_specialna(0x1230));
    assert!(!is_specialna(0x1140));
    assert!(!is_specialna(0x3130));
    assert!(!is_specialna(0x0000));
}

#[test]
fn a_pair_takes_the_first_byte_of_each_character() {
    assert_eq!(eia608_from_basicna(0xc880, 0xe580), 0xc8e5);
    assert_eq!(eia608_from_basicna(0xecff, 0xec00), 0xecec);
    assert_eq!(eia608_from_basicna(0x4100, 0x4200), 0x4142);
    assert_eq!(eia608_from_basicna(0xef80, 0x2080), 0xef20);
    assert_eq!(eia608_from_basicna(0x0000, 0x0000), 0x0000);
    assert_eq!(eia608_from_basicna(0x1234, 0x5678), 0x1256);
}

#[test]
fn lookup_finds_the_code_of_a_character() {
    let table = table();
    assert_eq!(eia608_from_utf8_1(&table, 'H'), 0xc880);
    assert_eq!(eia608_from_utf8_1(&table, 'e'), 0xe580);
    assert_eq!(eia608_from_utf8_1(&table, 'é'), 0xdc80);
    assert_eq!(eia608_from_utf8_1(&table, '®'), 0x91b0);
    assert_eq!(eia608_from_utf8_1(&table, 'ü'), 0x9225);
    assert_eq!(eia608_from_utf8_1(&table, 'ã'), 0x13a1);
}

#[test]
fn lookup_takes_the_first_entry_of_a_character() {
    assert_eq!(eia608_from_utf8_1(&table(), 'a'), 0x6180);
}

#[test]
fn lookup_gives_zero_for_a_character_without_code() {
    let table = table();
    assert_eq!(eia608_from_utf8_1(&table, '☃'), 0);
    assert_eq!(eia608_from_utf8_1(&table, '*'), 0);
    assert_eq!(eia608_from_utf8_1(&table, '\u{0}'), 0);
    let empty = CodeTable { chars: Vec::new(), ..table };
    assert_eq!(eia608_from_utf8_1(&empty, 'a'), 0);
    assert_eq!(eia608_from_utf8_1(&empty, ' '), 0);
}

#[test]
fn control_commands_come_from_the_table() {
    let table = table();
    assert_eq!(eia608_control_command(&table, ControlCommand::ResumeCaptionLoading), RCL);
    assert_eq!(eia608_control_command(&table, ControlCommand::EraseDisplayMemory), EDM);
    assert_eq!(eia608_control_command(&table, ControlCommand::EraseNonDisplayedMemory), ENM);
    assert_eq!(eia608_control_command(&table, ControlCommand::EndOfCaption), EOC);
}

#[test]
fn preambles_come_from_the_table() {
    let table = table();
    assert_eq!(eia608_row_column_preamble(&table, 13, 0), ROW_13);
    assert_eq!(eia608_row_column_preamble(&table, 14, 0), ROW_14);
    assert_eq!(eia608_row_column_preamble(&table, 0, 0), preamble(0, 0));
    assert_eq!(eia608_row_column_preamble(&table, 0, 31), preamble(0, 31));
    assert_eq!(eia608_row_column_preamble(&table, 14, 31), preamble(14, 31));
    assert_eq!(eia608_row_column_preamble(&table, 7, 12), preamble(7, 12));
    assert_ne!(preamble(7, 12), preamble(7, 0));
}

#[test]
fn payload_is_the_code_with_its_high_byte_first() {
    assert_eq!(buffer_from_cc_data(0x9420).payload(), [0x94, 0x20]);
    assert_eq!(buffer_from_cc_data(0xc8e5).payload(), [0xc8, 0xe5]);
    assert_eq!(buffer_from_cc_data(0x00ff).payload(), [0x00, 0xff]);
    assert_eq!(buffer_from_cc_data(0xff00).payload(), [0xff, 0x00]);
}

#[test]
fn a_new_frame_has_no_time() {
    assert_eq!(
        buffer_from_cc_data(0x1234),
        CaptionFrame { cc_data: 0x1234, pts: None, duration: None }
    );
}

#[test]
fn control_commands_are_appended_twice() {
    let table = table();
    let mut buffers = vec![buffer_from_cc_data(0x4142)];
    control_command_buffer(&table, &mut buffers, ControlCommand::EraseDisplayMemory);
    resume_caption_loading(&table, &mut buffers);
    erase_non_displayed_memory(&table, &mut buffers);
    end_of_caption(&table, &mut buffers);
    assert_eq!(codes(&buffers), vec![0x4142, EDM, EDM, RCL, RCL, ENM, ENM, EOC, EOC]);
}

#[test]
fn preambles_are_appended_twice() {
    let table = table();
    let mut buffers = Vec::new();
    preamble_buffer(&table, &mut buffers, 13, 0);
    preamble_buffer(&table, &mut buffers, 2, 8);
    assert_eq!(codes(&buffers), vec![ROW_13, ROW_13, preamble(2, 8), preamble(2, 8)]);
}

#[test]
fn a_pair_is_appended_once() {
    let mut buffers = Vec::new();
    bna_buffer(&mut buffers, 0xc880, 0xe580);
    assert_eq!(codes(&buffers), vec![0xc8e5]);
}

#[test]
fn the_erasure_of_the_display_goes_to_the_head_with_its_time() {
    let table = table();
    let mut bufferlist = vec![buffer_from_cc_data(0x4142)];
    erase_display_memory(&table, &mut bufferlist, 100, 7);
    erase_display_memory(&table, &mut bufferlist, 93, 0);
    assert_eq!(
        bufferlist,
        vec![
            CaptionFrame { cc_data: EDM, pts: Some(93), duration: Some(0) },
            CaptionFrame { cc_data: EDM, pts: Some(100), duration: Some(7) },
            CaptionFrame { cc_data: 0x4142, pts: None, duration: None },
        ]
    );
}

#[test]
fn an_empty_cue_is_its_commands() {
    let (frames, warnings) = encode("");
    assert_eq!(frames, vec![RCL, RCL, ENM, ENM, ROW_13, ROW_13, EOC, EOC]);
    assert_eq!(frames.len(), 8);
    assert_eq!(warnings, vec![]);
}

#[test]
fn basic_characters_go_two_to_a_frame() {
    let (frames, warnings) = encode("Hello");
    assert_eq!(frames, skeleton(&[0xc8e5, 0xecec, 0xef80]));
    assert_eq!(warnings, vec![]);
    assert_eq!(encode("He").0, skeleton(&[0xc8e5]));
    assert_eq!(encode("H").0, skeleton(&[0xc880]));
}

#[test]
fn a_basic_and_a_western_character() {
    let (frames, warnings) = encode("Hü");
    assert_eq!(frames, skeleton(&[0xc820, 0x9225]));
    assert_eq!(warnings, vec![]);
    assert_eq!(encode("eã").0, skeleton(&[0xe520, 0x13a1]));
}

#[test]
fn a_western_character_alone_follows_a_blank() {
    assert_eq!(encode("ü").0, skeleton(&[SPACE, 0x9225]));
    assert_eq!(encode("üH").0, skeleton(&[SPACE, 0x9225, 0xc880]));
    assert_eq!(encode("Heü").0, skeleton(&[0xc8e5, SPACE, 0x9225]));
    assert_eq!(encode("Áü").0, skeleton(&[SPACE, 0x9220, SPACE, 0x9225]));
}

#[test]
fn a_special_character_is_followed_by_resume_caption_loading() {
    assert_eq!(encode("®").0, skeleton(&[0x91b0, RCL, RCL]));
    assert_eq!(encode("H♪").0, skeleton(&[0xc880, 0x9137, RCL, RCL]));
    assert_eq!(encode("♪H").0, skeleton(&[0x9137, RCL, RCL, 0xc880]));
    assert_eq!(encode("He♪l").0, skeleton(&[0xc8e5, 0x9137, RCL, RCL, 0xec80]));
}

#[test]
fn a_character_without_code_becomes_a_blank() {
    let (frames, warnings) = encode("H☃");
    assert_eq!(frames, skeleton(&[0xc820]));
    assert_eq!(warnings, vec![Warning::Untranslated('☃')]);
    let (frames, warnings) = encode("☃*H");
    assert_eq!(frames, skeleton(&[0x2020, 0xc880]));
    assert_eq!(warnings, vec![Warning::Untranslated('☃'), Warning::Untranslated('*')]);
}

#[test]
fn a_table_without_a_blank_writes_zero_for_it() {
    let full = table();
    let chars = full.chars.iter().copied().filter(|entry| entry.ch != ' ').collect();
    let table = CodeTable { chars, ..full };
    let (frames, warnings) = encode_text(&table, "H☃ü");
    assert_eq!(codes(&frames), skeleton(&[0xc880, 0x0000, 0x0000, 0x9225]));
    assert_eq!(warnings, vec![Warning::Untranslated('☃')]);
}

#[test]
fn a_carriage_return_is_passed_over() {
    assert_eq!(encode("H\re").0, skeleton(&[0xc8e5]));
    assert_eq!(encode("\r\r").0, skeleton(&[]));
    assert_eq!(encode("\r"), encode(""));
}

#[test]
fn a_line_feed_starts_the_next_row() {
    assert_eq!(encode("H\ne").0, skeleton(&[0xc880, ROW_14, ROW_14, 0xe580]));
    assert_eq!(encode("He\nll").0, skeleton(&[0xc8e5, ROW_14, ROW_14, 0xecec]));
    assert_eq!(encode("\n").0, skeleton(&[ROW_14, ROW_14]));
    assert_eq!(encode("He\r\nl").0, skeleton(&[0xc8e5, ROW_14, ROW_14, 0xec80]));
}

#[test]
fn text_below_the_last_row_is_left_out() {
    assert_eq!(encode("H\ne\nl").0, skeleton(&[0xc880, ROW_14, ROW_14, 0xe580]));
    assert_eq!(encode("H\ne\nllo\nmore"), encode("H\ne\n"));
    assert_eq!(encode("\n\n\n").0, skeleton(&[ROW_14, ROW_14]));
    let (_, warnings) = encode("\n\n☃");
    assert_eq!(warnings, vec![]);
}

#[test]
fn a_row_takes_thirty_two_characters() {
    let (frames, warnings) = encode(&"z".repeat(33));
    assert_eq!(frames, skeleton(&[0x7a7a; 16]));
    assert_eq!(frames.len(), 6 + 16 + 2);
    assert_eq!(warnings, vec![Warning::ColumnOverflow('z')]);
    assert_eq!(frames, encode(&"z".repeat(32)).0);
    assert_eq!(encode(&"z".repeat(32)).1, vec![]);
    assert_ne!(frames, encode(&"z".repeat(31)).0);
}

#[test]
fn a_row_takes_thirty_two_characters_of_any_class() {
    let (frames, warnings) = encode(&"ü".repeat(34));
    let mut body = Vec::new();
    for _ in 0..32 {
        body.extend_from_slice(&[SPACE, 0x9225]);
    }
    assert_eq!(frames, skeleton(&body));
    assert_eq!(warnings, vec![Warning::ColumnOverflow('ü'), Warning::ColumnOverflow('ü')]);
}

#[test]
fn a_character_left_out_gives_one_warning() {
    let text = format!("{}☃", "z".repeat(32));
    let (frames, warnings) = encode(&text);
    assert_eq!(frames, skeleton(&[0x7a7a; 16]));
    assert_eq!(warnings, vec![Warning::ColumnOverflow('☃')]);
}

#[test]
fn a_line_feed_gives_a_row_its_columns_back() {
    let text = format!("{}\nHe", "z".repeat(33));
    let (frames, warnings) = encode(&text);
    let mut body = vec![0x7a7a; 16];
    body.extend_from_slice(&[ROW_14, ROW_14, 0xc8e5]);
    assert_eq!(frames, skeleton(&body));
    assert_eq!(warnings, vec![Warning::ColumnOverflow('z')]);

    let text = format!("{}\n{}", "z".repeat(31), "y".repeat(40));
    let (frames, warnings) = encode(&text);
    let mut body = vec![0x7a7a; 15];
    body.extend_from_slice(&[0x7a80, ROW_14, ROW_14]);
    body.extend_from_slice(&[0x7979; 16]);
    assert_eq!(frames, skeleton(&body));
    assert_eq!(warnings, vec![Warning::ColumnOverflow('y'); 8]);
}

#[test]
fn a_carriage_return_takes_no_column() {
    let text = format!("{}\r{}", "z".repeat(16), "z".repeat(17));
    let (frames, warnings) = encode(&text);
    assert_eq!(frames, skeleton(&[0x7a7a; 16]));
    assert_eq!(warnings, vec![Warning::ColumnOverflow('z')]);
}
